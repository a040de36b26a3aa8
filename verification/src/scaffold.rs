//! The scaffold a new pack or stage starts from: the files and their text.
use vstd::prelude::*;

use crate::authoring::{identifier_ok, validate_identifier, AuthoringReport, NewPackRequest, AddStageRequest};
use crate::paths::{join_path, path_join};
use crate::text::{chars_of, push_str, string_of};

verus! {

fn text3(a: &str, b: &str, c: &str) -> (out: String)
    ensures
        out@ == a@ + b@ + c@,
{
    let mut v: Vec<char> = Vec::new();
    push_str(&mut v, a);
    push_str(&mut v, b);
    push_str(&mut v, c);
    string_of(v.as_slice())
}

fn text5(a: &str, b: &str, c: &str, d: &str, e: &str) -> (out: String)
    ensures
        out@ == a@ + b@ + c@ + d@ + e@,
{
    let mut v: Vec<char> = Vec::new();
    push_str(&mut v, a);
    push_str(&mut v, b);
    push_str(&mut v, c);
    push_str(&mut v, d);
    push_str(&mut v, e);
    string_of(v.as_slice())
}

pub open spec fn readme_text(name: Seq<char>) -> Seq<char> {
    "# "@ + name + "\n\n## What you are building\n\nDescribe the finished tool or system in concrete terms.\n\n## Why this is useful\n\nExplain what real engineering concepts the learner will practice.\n\n## Big picture\n\n1. Start with a minimal CLI behavior.\n2. Add realistic edge cases.\n3. Validate behavior with black-box tests.\n\n## What good looks like\n\nGood solutions are deterministic, locally owned, and tested at the command boundary.\n"@
}

/// The README a new pack starts with.
pub fn readme(name: &str) -> (out: String)
    ensures
        out@ == readme_text(name@),
{
    text3(
        "# ",
        name,
        "\n\n## What you are building\n\nDescribe the finished tool or system in concrete terms.\n\n## Why this is useful\n\nExplain what real engineering concepts the learner will practice.\n\n## Big picture\n\n1. Start with a minimal CLI behavior.\n2. Add realistic edge cases.\n3. Validate behavior with black-box tests.\n\n## What good looks like\n\nGood solutions are deterministic, locally owned, and tested at the command boundary.\n",
    )
}

pub open spec fn cargo_toml_text(id: Seq<char>) -> Seq<char> {
    "[package]\nname = \""@ + id + "\"\nversion = \"0.1.0\"\nedition = \"2024\"\n\n[dependencies]\n"@
}

/// The starter template's `Cargo.toml`.
pub fn template_cargo_toml(id: &str) -> (out: String)
    ensures
        out@ == cargo_toml_text(id@),
{
    text3("[package]\nname = \"", id, "\"\nversion = \"0.1.0\"\nedition = \"2024\"\n\n[dependencies]\n")
}

pub open spec fn starter_main_text(id: Seq<char>) -> Seq<char> {
    "use std::env;\nuse std::process::ExitCode;\n\nfn main() -> ExitCode {\n    let args: Vec<String> = env::args().skip(1).collect();\n    if args.is_empty() {\n        eprintln!(\"usage: "@
        + id
        + " <command> ...\");\n        return ExitCode::FAILURE;\n    }\n\n    println!(\""@ + id
        + " starter: implement command {:?}\", args);\n    ExitCode::SUCCESS\n}\n"@
}

/// The starter template's `main.rs`.
pub fn starter_main(id: &str) -> (out: String)
    ensures
        out@ == starter_main_text(id@),
{
    text5(
        "use std::env;\nuse std::process::ExitCode;\n\nfn main() -> ExitCode {\n    let args: Vec<String> = env::args().skip(1).collect();\n    if args.is_empty() {\n        eprintln!(\"usage: ",
        id,
        " <command> ...\");\n        return ExitCode::FAILURE;\n    }\n\n    println!(\"",
        id,
        " starter: implement command {:?}\", args);\n    ExitCode::SUCCESS\n}\n",
    )
}

pub open spec fn first_instructions_text(id: Seq<char>) -> Seq<char> {
    "# First stage\n\nImplement:\n\n```bash\n"@ + id
        + " echo <value>\n```\n\nPrint the value followed by a newline.\n\nExample:\n\n```txt\nhello\n```\n\nEdge cases:\n\n- reject missing values\n- preserve spaces inside one argument\n\nNon-goals:\n\n- persistence\n- networking\n- advanced parsing\n"@
}

/// The first stage's guide in a new pack.
pub fn first_stage_instructions(id: &str) -> (out: String)
    ensures
        out@ == first_instructions_text(id@),
{
    text3(
        "# First stage\n\nImplement:\n\n```bash\n",
        id,
        " echo <value>\n```\n\nPrint the value followed by a newline.\n\nExample:\n\n```txt\nhello\n```\n\nEdge cases:\n\n- reject missing values\n- preserve spaces inside one argument\n\nNon-goals:\n\n- persistence\n- networking\n- advanced parsing\n",
    )
}

pub open spec fn first_tests_text() -> Seq<char> {
    "tests:\n  - name: echoes one value\n    command: [\"echo\", \"hello\"]\n    expect:\n      exit_code: 0\n      stdout_exact: \"hello\\n\"\n\n  - name: preserves one argument with spaces\n    command: [\"echo\", \"hello world\"]\n    expect:\n      exit_code: 0\n      stdout_exact: \"hello world\\n\"\n\n  - name: rejects missing value\n    command: [\"echo\"]\n    expect:\n      exit_code: 1\n"@
}

/// The first stage's tests in a new pack.
pub fn first_stage_tests() -> (out: String)
    ensures
        out@ == first_tests_text(),
{
    String::from_str(
        "tests:\n  - name: echoes one value\n    command: [\"echo\", \"hello\"]\n    expect:\n      exit_code: 0\n      stdout_exact: \"hello\\n\"\n\n  - name: preserves one argument with spaces\n    command: [\"echo\", \"hello world\"]\n    expect:\n      exit_code: 0\n      stdout_exact: \"hello world\\n\"\n\n  - name: rejects missing value\n    command: [\"echo\"]\n    expect:\n      exit_code: 1\n",
    )
}

pub open spec fn stage_instructions_text(id: Seq<char>, title: Seq<char>) -> Seq<char> {
    "# "@ + title + "\n\nDescribe the behavior for stage `"@ + id
        + "`.\n\nExample:\n\n```bash\nreplace-this-command\n```\n\nEdge cases:\n\n- add at least two edge cases before considering this stage complete\n\nNon-goals:\n\n- list behavior that should not be implemented yet\n"@
}

/// A new stage's guide.
pub fn stage_instructions(id: &str, title: &str) -> (out: String)
    ensures
        out@ == stage_instructions_text(id@, title@),
{
    text5(
        "# ",
        title,
        "\n\nDescribe the behavior for stage `",
        id,
        "`.\n\nExample:\n\n```bash\nreplace-this-command\n```\n\nEdge cases:\n\n- add at least two edge cases before considering this stage complete\n\nNon-goals:\n\n- list behavior that should not be implemented yet\n",
    )
}

pub open spec fn stage_tests_text(title: Seq<char>) -> Seq<char> {
    "tests:\n  - name: placeholder for "@ + title
        + "\n    command: [\"echo\", \"replace-me\"]\n    expect:\n      exit_code: 0\n      stdout_contains:\n        - \"replace-me\"\n"@
}

/// A new stage's placeholder tests.
pub fn stage_tests(title: &str) -> (out: String)
    ensures
        out@ == stage_tests_text(title@),
{
    text3(
        "tests:\n  - name: placeholder for ",
        title,
        "\n    command: [\"echo\", \"replace-me\"]\n    expect:\n      exit_code: 0\n      stdout_contains:\n        - \"replace-me\"\n",
    )
}

/// Files to write, each relative to a root, with its text.
pub open spec fn files_view(v: Seq<(String, String)>) -> Seq<(Seq<char>, Seq<char>)> {
    v.map_values(|f: (String, String)| (f.0@, f.1@))
}

/// What a new pack consists of, beside its manifest: the directory it goes
/// in, the directories and files under it, and the report to give once
/// they are written.
#[derive(Debug)]
pub struct PackScaffold {
    pub root: String,
    pub directories: Vec<String>,
    pub files: Vec<(String, String)>,
    pub report: AuthoringReport,
}

pub open spec fn pack_files(id: Seq<char>, name: Seq<char>) -> Seq<(Seq<char>, Seq<char>)> {
    seq![
        ("README.md"@, readme_text(name)),
        ("templates/rust/Cargo.toml"@, cargo_toml_text(id)),
        ("templates/rust/Cargo.lock"@, "# This file is intentionally minimal for the starter template.\nversion = 4\n"@),
        ("templates/rust/src/main.rs"@, starter_main_text(id)),
        ("stages/01_first_stage/instructions.md"@, first_instructions_text(id)),
        ("stages/01_first_stage/hints.md"@, "# Hint 1\n\nStart by making the CLI parse the command shape from the instructions.\n"@),
        ("stages/01_first_stage/tests.yaml"@, first_tests_text()),
        ("stages/01_first_stage/fixtures/example/input.txt"@, "hello deltaforge\n"@),
    ]
}

fn file(path: &str, text: String) -> (f: (String, String))
    ensures
        f.0@ == path@,
        f.1@ == text@,
{
    (String::from_str(path), text)
}

/// Plan a new pack: the identifier must be valid, the language Rust, and
/// the directory free unless `force` is set.
pub fn create_pack(request: &NewPackRequest, target_exists: bool) -> (r: Result<PackScaffold, String>)
    ensures
        !identifier_ok(request.id@) ==> (r matches Err(e) && e@
            == "identifier must use lowercase ascii letters, digits, '_' or '-': "@ + request.id@),
        identifier_ok(request.id@) && request.language@ != "rust"@ ==> (r matches Err(e) && e@
            == "only rust templates are currently scaffolded"@),
        identifier_ok(request.id@) && request.language@ == "rust"@ && target_exists && !request.force
            ==> (r matches Err(e) && e@ == "pack directory already exists: "@ + path_join(
            request.dest@,
            request.id@,
        ) + "\nUse --force to replace it."@),
        identifier_ok(request.id@) && request.language@ == "rust"@ && !(target_exists && !request.force)
            ==> (r matches Ok(p) && {
            &&& p.root@ == path_join(request.dest@, request.id@)
            &&& p.directories@.map_values(|d: String| d@) == seq![
                "templates/rust/src"@,
                "stages/01_first_stage/fixtures/example"@,
            ]
            &&& files_view(p.files@) == pack_files(request.id@, request.name@)
            &&& p.report.status@ == "ok"@
            &&& crate::authoring::opt_string_view(p.report.path) == Some(p.root@)
            &&& crate::authoring::opt_string_view(p.report.pack) == Some(request.id@)
            &&& p.report.next_actions@.len() == 4
            &&& p.report.next_actions@[0]@ == "Edit README.md with the project context and learning outcomes."@
            &&& p.report.next_actions@[1]@ == "Replace the starter stage with real behavior-specific tests."@
            &&& p.report.next_actions@[2]@ == "Add a reference solution and run pack check-reference."@
            &&& p.report.next_actions@[3]@ == "Run: deltaforge --packs-dir "@ + request.dest@
                + " validate-pack "@ + request.id@
        }),
{
    validate_identifier(request.id.as_str())?;
    let language = chars_of(request.language.as_str());
    if !crate::text::chars_eq_str(language.as_slice(), "rust") {
        return Err(String::from_str("only rust templates are currently scaffolded"));
    }
    let root = join_path(request.dest.as_str(), request.id.as_str());
    if target_exists && !request.force {
        return Err(text3("pack directory already exists: ", root.as_str(), "\nUse --force to replace it."));
    }
    let mut directories: Vec<String> = Vec::new();
    directories.push(String::from_str("templates/rust/src"));
    directories.push(String::from_str("stages/01_first_stage/fixtures/example"));
    assert(directories@.map_values(|d: String| d@) =~= seq![
        "templates/rust/src"@,
        "stages/01_first_stage/fixtures/example"@,
    ]);
    let id = request.id.as_str();
    let mut files: Vec<(String, String)> = Vec::new();
    files.push(file("README.md", readme(request.name.as_str())));
    files.push(file("templates/rust/Cargo.toml", template_cargo_toml(id)));
    files.push(
        file(
            "templates/rust/Cargo.lock",
            String::from_str("# This file is intentionally minimal for the starter template.\nversion = 4\n"),
        ),
    );
    files.push(file("templates/rust/src/main.rs", starter_main(id)));
    files.push(file("stages/01_first_stage/instructions.md", first_stage_instructions(id)));
    files.push(
        file(
            "stages/01_first_stage/hints.md",
            String::from_str("# Hint 1\n\nStart by making the CLI parse the command shape from the instructions.\n"),
        ),
    );
    files.push(file("stages/01_first_stage/tests.yaml", first_stage_tests()));
    files.push(file("stages/01_first_stage/fixtures/example/input.txt", String::from_str("hello deltaforge\n")));
    assert(files_view(files@) =~= pack_files(request.id@, request.name@));
    let mut next: Vec<String> = Vec::new();
    next.push(String::from_str("Edit README.md with the project context and learning outcomes."));
    next.push(String::from_str("Replace the starter stage with real behavior-specific tests."));
    next.push(String::from_str("Add a reference solution and run pack check-reference."));
    let mut last: Vec<char> = Vec::new();
    push_str(&mut last, "Run: deltaforge --packs-dir ");
    push_str(&mut last, request.dest.as_str());
    push_str(&mut last, " validate-pack ");
    push_str(&mut last, id);
    next.push(string_of(last.as_slice()));
    let report = AuthoringReport::ok(crate::text::copy_string(&request.id), root.as_str(), next);
    Ok(PackScaffold { root, directories, files, report })
}

/// What a new stage consists of: its directory, its manifest entry's path,
/// the files under it, and the report to give once they are written.
#[derive(Debug)]
pub struct StageScaffold {
    pub stage_path: String,
    pub stage_dir: String,
    pub files: Vec<(String, String)>,
    pub report: AuthoringReport,
}

pub open spec fn stage_files(id: Seq<char>, title: Seq<char>) -> Seq<(Seq<char>, Seq<char>)> {
    seq![
        ("instructions.md"@, stage_instructions_text(id, title)),
        ("hints.md"@, "# Hint 1\n\nIdentify the smallest CLI behavior that should pass this stage first.\n"@),
        ("tests.yaml"@, stage_tests_text(title)),
        ("fixtures/example/input.txt"@, "replace me\n"@),
    ]
}

/// Plan a new stage for a pack whose stages have identifiers `stage_ids`:
/// the identifier must be valid and new, and its directory free unless
/// `force` is set.
pub fn add_stage(request: &AddStageRequest, stage_ids: &Vec<String>, stage_dir_exists: bool) -> (r: Result<StageScaffold, String>)
    ensures
        !identifier_ok(request.id@) ==> (r matches Err(e) && e@
            == "identifier must use lowercase ascii letters, digits, '_' or '-': "@ + request.id@),
        identifier_ok(request.id@) && stage_ids@.map_values(|s: String| s@).contains(request.id@) ==> (r matches Err(e) && e@
            == "stage "@ + request.id@ + " already exists"@),
        identifier_ok(request.id@) && !stage_ids@.map_values(|s: String| s@).contains(request.id@) && stage_dir_exists
            && !request.force ==> (r matches Err(e) && e@ == "stage directory already exists: "@
            + path_join(request.pack_dir@, "stages/"@ + request.id@)
            + "\nUse --force to write scaffold files."@),
        identifier_ok(request.id@) && !stage_ids@.map_values(|s: String| s@).contains(request.id@) && !(
        stage_dir_exists && !request.force) ==> (r matches Ok(s) && {
            &&& s.stage_path@ == "stages/"@ + request.id@
            &&& s.stage_dir@ == path_join(request.pack_dir@, "stages/"@ + request.id@)
            &&& files_view(s.files@) == stage_files(request.id@, request.title@)
            &&& s.report.status@ == "ok"@
            &&& crate::authoring::opt_string_view(s.report.path) == Some(s.stage_dir@)
            &&& crate::authoring::opt_string_view(s.report.pack) == Some(request.id@)
            &&& s.report.next_actions@.len() == 3
            &&& s.report.next_actions@[0]@ == "Replace placeholder tests with behavior-specific black-box tests."@
            &&& s.report.next_actions@[1]@ == "Add edge cases, examples, and non-goals to instructions.md."@
            &&& s.report.next_actions@[2]@ == "Run validate-pack after editing fixtures and tests."@
        }),
{
    validate_identifier(request.id.as_str())?;
    let id = chars_of(request.id.as_str());
    let mut i: usize = 0;
    let ghost ids = stage_ids@.map_values(|s: String| s@);
    while i < stage_ids.len()
        invariant
            i <= stage_ids@.len(),
            id@ == request.id@,
            identifier_ok(request.id@),
            ids == stage_ids@.map_values(|s: String| s@),
            forall|j: int| 0 <= j < i ==> ids[j] != request.id@,
        decreases stage_ids@.len() - i,
    {
        let other = chars_of(stage_ids[i].as_str());
        if crate::text::chars_eq(other.as_slice(), id.as_slice()) {
            assert(ids[i as int] == request.id@);
            return Err(text3("stage ", request.id.as_str(), " already exists"));
        }
        i = i + 1;
    }
    let mut path: Vec<char> = Vec::new();
    push_str(&mut path, "stages/");
    push_str(&mut path, request.id.as_str());
    let stage_path = string_of(path.as_slice());
    let stage_dir = join_path(request.pack_dir.as_str(), stage_path.as_str());
    if stage_dir_exists && !request.force {
        return Err(text3("stage directory already exists: ", stage_dir.as_str(), "\nUse --force to write scaffold files."));
    }
    let mut files: Vec<(String, String)> = Vec::new();
    files.push(file("instructions.md", stage_instructions(request.id.as_str(), request.title.as_str())));
    files.push(
        file(
            "hints.md",
            String::from_str("# Hint 1\n\nIdentify the smallest CLI behavior that should pass this stage first.\n"),
        ),
    );
    files.push(file("tests.yaml", stage_tests(request.title.as_str())));
    files.push(file("fixtures/example/input.txt", String::from_str("replace me\n")));
    assert(files_view(files@) =~= stage_files(request.id@, request.title@));
    let mut next: Vec<String> = Vec::new();
    next.push(String::from_str("Replace placeholder tests with behavior-specific black-box tests."));
    next.push(String::from_str("Add edge cases, examples, and non-goals to instructions.md."));
    next.push(String::from_str("Run validate-pack after editing fixtures and tests."));
    let report = AuthoringReport::ok(crate::text::copy_string(&request.id), stage_dir.as_str(), next);
    Ok(StageScaffold { stage_path, stage_dir, files, report })
}

} // verus!
