# deltaforge

The logic of DeltaForge, a local framework for learning by building a
project step by step, as a library whose behaviour is stated in contracts
and proved with Verus; and a thin command line around it.

## Layout

- `src/` — the verified library.
  - `text`: strings as character sequences, and the string operations the
    rest is written in.
  - `capability`, `block_laws`, `fidelity`, `help`, `content`, `stage_view`: stage guides —
    inline and block markdown, the check that nothing a pack writes is lost
    on the way to the screen, the help ladder, the required panels, and what
    the workbench shows for a step.
  - `page`, `panels`: the static learning page — anchors, HTML escaping, the
    markdown renderer and the chapters.
  - `pack`, `pack_checks`, `authoring`, `scaffold`: pack manifests, their
    validation, and the authoring operations and scaffolds.
  - `paths`, `location`, `creation`, `scratch`: paths as text, where a project
    may be created, project names, and scratch directory names.
  - `health`, `session`, `diagnosis`, `gate`, `project`: a project's health,
    the workbench's decisions, failed-check records, gates and digest
    exclusions.
  - `test_run`, `console`: what a finished test or benchmark run records
    (failures first-to-fix first, completion proofs, the attempt's status)
    and what the test command prints while a run goes on.
  - `journal`, `registry`, `digest`: the event journal, the project
    registry, and FNV-1a digests of named contents and of file trees,
    with the rules for what a pack's or a project's tree may hold.
  - `matrix`, `bench`, `config`, `reporting`: benchmark matrices, benchmark
    vocabulary, project configuration and report formats.
- `tests/` — tests of the library, run against the compiled crate.
- `app/` — the `deltaforge` program: argument parsing, files, YAML, TOML and
  JSON, and printing. It reads the world and hands the library plain values.
  Its commands: `validate-pack`; `pack new`, `add-stage`, `doctor`,
  `content`, `read-document`, `write-document`, `write-fixture`, `fixtures`
  (or one fixture's files with `--fixture`), `read-fixture` and
  `delete-fixture`; `pack mcp`, the pack-authoring tool server for an
  agent, which lists the library's tool catalogue and dispatches each call
  to the same operations; `config show` and `validate`; `cancel`; and
  `explain-failure`, which first checks the project's pack pin against the
  pack's tree digest. Fixture files are read and deleted through directory
  handles that do not follow symbolic links.
