use deltaforge::capability::{
    markdown_sections, parse_blocks, parse_inline, plain_line, section_get, ColumnAlignment,
    InlineSpan, OverviewBlock,
};
use deltaforge::content::{first_paragraph, narrative_paragraphs, parse_overview_sections};
use deltaforge::fidelity::unrepresentable_markdown;
use deltaforge::help::{authored_help_numbers, available_help_levels, parse_help};

fn text_spans(text: &str) -> Vec<InlineSpan> {
    vec![InlineSpan::Text {
        text: text.to_string(),
    }]
}

#[test]
fn a_preamble_is_not_a_help_level_and_numbering_follows_position() {
    let ladder = parse_help(&[
        "Read the instructions again before opening a hint.\n\n",
        "# Hint 1 — Observation\n\nLook at the output.\n\n",
        "# Hint 2 — Concept\n\nThink recursively.\n\n",
        "# Hint 3 — Retrospective\n\nThe whole answer.\n",
    ].concat());
    assert_eq!(ladder.len(), 3);
    assert_eq!(ladder[0].label, "Observation");
    assert_eq!(ladder[0].content.source, "Look at the output.");

    let misnumbered =
        parse_help("# Hint 1\n\nfirst\n\n# Hint 2\n\nsecond\n\n# Hint 4\n\nthird\n");
    assert_eq!(
        misnumbered
            .iter()
            .map(|hint| hint.level)
            .collect::<Vec<_>>(),
        [1, 2, 3]
    );
    assert_eq!(authored_help_numbers("# Hint 1\na\n# Hint 4\nb\n"), [1, 4]);
}

#[test]
fn the_retrospective_is_the_only_gated_level() {
    assert_eq!(available_help_levels(5, false), 4);
    assert_eq!(available_help_levels(5, true), 5);
    assert_eq!(available_help_levels(3, false), 2);
    assert_eq!(available_help_levels(3, true), 3);
    assert_eq!(available_help_levels(1, false), 1);
    assert_eq!(available_help_levels(0, false), 0);
}

#[test]
fn inline_markup_is_parsed_rather_than_deleted() {
    assert_eq!(
        parse_inline("`MUL`: pop right, then push `left * right`."),
        [
            InlineSpan::Code {
                text: "MUL".to_string()
            },
            InlineSpan::Text {
                text: ": pop right, then push ".to_string()
            },
            InlineSpan::Code {
                text: "left * right".to_string()
            },
            InlineSpan::Text {
                text: ".".to_string()
            },
        ]
    );
    assert_eq!(
        plain_line("`MUL`: pop right, then push `left * right`."),
        "MUL: pop right, then push left * right."
    );
}

#[test]
fn emphasis_nests_and_code_spans_are_verbatim() {
    assert_eq!(
        parse_inline("Checks the **`shape`** of it"),
        [
            InlineSpan::Text {
                text: "Checks the ".to_string()
            },
            InlineSpan::Strong {
                spans: vec![InlineSpan::Code {
                    text: "shape".to_string()
                }]
            },
            InlineSpan::Text {
                text: " of it".to_string()
            },
        ]
    );
    assert_eq!(
        parse_inline("`a ** b`"),
        [InlineSpan::Code {
            text: "a ** b".to_string()
        }]
    );
}

#[test]
fn an_unclosed_marker_stays_the_character_it_is() {
    assert_eq!(
        parse_inline("2 * 3 and a stray ` tick"),
        [InlineSpan::Text {
            text: "2 * 3 and a stray ` tick".to_string()
        }]
    );
}

#[test]
fn headings_lists_and_tables_are_blocks_of_their_own() {
    let blocks = parse_blocks(&[
        "### Reflection",
        "",
        "1. First",
        "2. Second",
        "",
        "- A",
        "",
        "| Head | Count |",
        "|---|---:|",
        "| `ADD` | 2 |",
    ]);
    assert_eq!(
        blocks,
        [
            OverviewBlock::Heading {
                level: 3,
                spans: text_spans("Reflection")
            },
            OverviewBlock::List {
                ordered: true,
                items: vec![text_spans("First"), text_spans("Second")],
            },
            OverviewBlock::List {
                ordered: false,
                items: vec![text_spans("A")],
            },
            OverviewBlock::Table {
                headers: vec![text_spans("Head"), text_spans("Count")],
                alignments: vec![ColumnAlignment::Start, ColumnAlignment::End],
                rows: vec![vec![
                    vec![InlineSpan::Code {
                        text: "ADD".to_string()
                    }],
                    text_spans("2"),
                ]],
            },
        ]
    );
}

#[test]
fn a_pipe_row_without_a_delimiter_stays_prose() {
    let blocks = parse_blocks(&["| not a table |"]);
    assert_eq!(
        blocks,
        [OverviewBlock::Paragraph {
            spans: text_spans("| not a table |")
        }]
    );
}

#[test]
fn the_fidelity_check_finds_what_the_renderer_would_drop() {
    assert!(unrepresentable_markdown("Push `left * right` onto the stack.").is_empty());
    assert!(unrepresentable_markdown("### Reflection\n\n- Why?\n").is_empty());
    assert!(
        unrepresentable_markdown("| A | B |\n|---|---:|\n| 1 | 2 |\n").is_empty(),
        "column alignment must survive"
    );
    assert!(!unrepresentable_markdown("Call `scan without closing it.").is_empty());
    assert!(!unrepresentable_markdown("> A quotation.\n").is_empty());
    assert!(!unrepresentable_markdown("A [link](https://example.com) here.\n").is_empty());
}

#[test]
fn parses_structured_sections_and_help_levels() {
    let sections = markdown_sections(
        "# Stage\n\n## Goal\n\nBuild `scan`.\n\n## Requirements\n\n- Walk files.\n- Sort output.\n",
    );
    assert_eq!(
        first_paragraph(&section_get(&sections, "Goal").unwrap()),
        "Build scan."
    );
    assert_eq!(
        parse_blocks(
            &section_get(&sections, "Requirements")
                .unwrap()
                .lines()
                .collect::<Vec<_>>()
        ),
        [OverviewBlock::List {
            ordered: false,
            items: vec![text_spans("Walk files."), text_spans("Sort output.")],
        }]
    );

    let paragraphs = narrative_paragraphs(
        "First paragraph.\n\n```text\nskipped\n```\n\nSecond `paragraph`.",
        2,
    );
    assert_eq!(paragraphs, ["First paragraph.", "Second paragraph."]);

    let overview = parse_overview_sections(
        "# Project\n\n## What you build\n\nRead `input`.\n\n```text\ninput -> output\n```\n\n- First step\n- Second step\n",
    );
    assert_eq!(overview.len(), 1);
    assert_eq!(overview[0].title, "What you build");
    assert_eq!(overview[0].blocks.len(), 3);

    let prose = parse_blocks(
        &"Only print files with these extensions:\n\n```text\n.rs .md\n```\n"
            .lines()
            .collect::<Vec<_>>(),
    );
    assert_eq!(prose.len(), 2);
    assert!(matches!(prose[0], OverviewBlock::Paragraph { .. }));
    assert!(matches!(prose[1], OverviewBlock::Code { .. }));

    let help = parse_help(
        "# Hint 1 — Observation\n\nLook at output.\n\n# Hint 2 — Concept\n\nThink recursively.\n",
    );
    assert_eq!(help.len(), 2);
    assert_eq!(help[0].label, "Observation");
    assert_eq!(help[1].level, 2);
}
