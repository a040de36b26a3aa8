use deltaforge::page::{
    markdown_to_html, section_body, slugify, split_h2_sections, stage_display_title,
    stage_summary,
};

#[test]
fn markdown_renderer_escapes_pack_html_and_formats_tables() {
    let rendered = markdown_to_html(
        "## Safe\n\n<script>alert(1)</script>\n\n| Name | Value |\n|---|---|\n| `a` | **b** |",
    );
    assert!(rendered.contains("&lt;script&gt;alert(1)&lt;/script&gt;"));
    assert!(!rendered.contains("<script>alert"));
    assert!(rendered.contains("<table>"));
    assert!(rendered.contains("<code>a</code>"));
    assert!(rendered.contains("<strong>b</strong>"));
}

#[test]
fn section_selection_keeps_the_learning_order() {
    let sections = split_h2_sections(
        "# Stage\n\n## Goal\n\nStart small.\n\n## Requirements\n\nDo one thing.\n",
    );
    assert_eq!(sections.len(), 2);
    assert_eq!(stage_summary("## Goal\n\nStart small."), "Start small.");
    assert_eq!(
        section_body(&sections, "goal").as_deref(),
        Some("Start small.")
    );
    assert_eq!(
        stage_display_title("# Stage 02 — Choose searchable files", "Fallback"),
        "Choose searchable files"
    );
}

#[test]
fn slugs_are_stable_anchor_names() {
    assert_eq!(slugify("Edge cases"), "edge-cases");
    assert_eq!(slugify("Non-goals"), "non-goals");
    assert_eq!(slugify("§ ?!"), "section");
}
