use deltaforge::panels::{render_overview_panel, render_stage_panel, StagePage};

fn page(id: &str, title: &str, status: &'static str, source: &str) -> StagePage {
    StagePage {
        id: id.to_string(),
        title: title.to_string(),
        status,
        source: source.to_string(),
    }
}

#[test]
fn a_stage_chapter_numbers_its_sections_and_links_its_neighbours() {
    let stages = vec![
        page("01", "Scan", "complete", "## Goal\n\nList files.\n\n## Requirements\n\n- all\n\n## Non-goals\n\n- speed\n"),
        page("02", "Filter <b>", "current", "## Goal\n\nKeep some.\n"),
    ];
    let html = render_stage_panel(&stages[0], 0, &stages);
    assert!(html.starts_with("<section id=\"stage-01\" class=\"chapter\" hidden>"));
    assert!(html.contains("<span>Stage 01 of 2</span>"));
    assert!(html.contains("<span class=\"st-complete\">Done</span>"));
    assert!(html.contains("<div class=\"lede\"><p>List files.</p></div>"));
    assert!(html.contains(
        "<section class=\"sec\" id=\"stage-01-requirements\"><h2><span class=\"sec-num\" aria-hidden=\"true\">§1</span>Requirements</h2><ul><li>all</li></ul></section>"
    ));
    assert!(html.contains("<section class=\"sec sec-box\" id=\"stage-01-non-goals\">"));
    assert!(html.contains("<li><a href=\"#stage-01-requirements\">Requirements</a></li>"));
    assert!(html.contains("data-target=\"overview\""));
    assert!(html.contains("<span class=\"turn-title\">Filter &lt;b&gt;</span>"));
    let last = render_stage_panel(&stages[1], 1, &stages);
    assert!(last.contains("This is the final stage."));
    assert!(last.contains("<span class=\"waypoint-title\">The finished project</span>"));
}

#[test]
fn the_overview_chapter_puts_the_road_ahead_after_why() {
    let stages = vec![page("01", "Scan", "current", "## Goal\n\nList files.\n")];
    let readme = "# Demo\n\n## What you are building\n\nA scanner.\n\n## Why this is useful\n\nBecause.\n\n## What good looks like\n\nTests.\n";
    let html = render_overview_panel("Demo", readme, &stages);
    assert!(html.contains("<div class=\"lede\"><p>A scanner.</p></div>"));
    assert!(html.contains("§1</span>Why this is useful"));
    assert!(html.contains("§2</span>The road ahead"));
    assert!(html.contains("<section class=\"sec sec-box\" id=\"overview-what-good-looks-like\"><h2><span class=\"sec-num\" aria-hidden=\"true\">§3</span>"));
    assert!(html.contains("<span class=\"roadmap-num\" aria-hidden=\"true\">01</span>"));
    assert!(html.contains("<span class=\"roadmap-state\">you are here</span>"));
    assert!(html.contains("<span class=\"roadmap-summary\">List files.</span>"));
    let bare = render_overview_panel("Demo", "Just prose.", &Vec::new());
    assert!(bare.contains("§2</span>About this project"));
}
