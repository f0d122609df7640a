use bookmd::inline::{collect_inline_content, collect_run_text, format_run_text};
use bookmd::model::{
    AbstractNumbering, DocumentNode, Hyperlink, ImageMap, ImageMapEntry, InlineItem, LevelEntry,
    NumberFormat, NumberingEntry, NumberingRef, NumberingTable, Paragraph, RelEntry,
    RelationshipTable, Run, RunSegment, TableCell, TableNode, TableRow,
};
use bookmd::numbering::{resolve_list_bullet, ListCounters};
use bookmd::paragraph::render_paragraph;
use bookmd::rels::{resolve_hyperlink, resolve_media};
use bookmd::table::render_table;
use bookmd::walker::{render, render_body};

fn text_run(s: &str) -> Run {
    Run { bold: false, italic: false, strike: false, segments: vec![RunSegment::Text(s.to_string())] }
}

fn plain_para(s: &str) -> Paragraph {
    Paragraph { style_id: None, numbering: None, content: vec![InlineItem::Run(text_run(s))] }
}

fn empty_rels() -> RelationshipTable {
    RelationshipTable { entries: Vec::new() }
}

fn empty_imap() -> ImageMap {
    ImageMap { entries: Vec::new() }
}

fn empty_numbering() -> NumberingTable {
    NumberingTable { numberings: Vec::new(), abstracts: Vec::new() }
}

fn numbering_with(format: NumberFormat) -> NumberingTable {
    NumberingTable {
        numberings: vec![NumberingEntry { num_id: Some(1), abstract_id: Some(10) }],
        abstracts: vec![AbstractNumbering {
            abstract_id: 10,
            levels: vec![LevelEntry { level: Some(0), format: Some(format) }],
        }],
    }
}

#[test]
fn bold_italic_run_is_wrapped() {
    assert_eq!(format_run_text("hi", true, true, false), "***hi***");
}

#[test]
fn blank_run_stays_unwrapped() {
    assert_eq!(format_run_text("  ", false, false, false), "  ");
    assert_eq!(format_run_text("  ", true, true, true), "  ");
    assert_eq!(format_run_text("\t\n", true, false, false), "\t\n");
    assert_eq!(format_run_text("\u{00A0}\u{2003}", true, true, true), "\u{00A0}\u{2003}");
}

#[test]
fn single_markers_and_strike_nesting() {
    assert_eq!(format_run_text("x", true, false, false), "**x**");
    assert_eq!(format_run_text("x", false, true, false), "*x*");
    assert_eq!(format_run_text("x", false, false, true), "~~x~~");
    assert_eq!(format_run_text("x", true, true, true), "~~***x***~~");
    assert_eq!(format_run_text("x", true, false, true), "~~**x**~~");
}

#[test]
fn run_segments_concatenate() {
    let run = Run {
        bold: false,
        italic: false,
        strike: false,
        segments: vec![
            RunSegment::Text("a".to_string()),
            RunSegment::Tab,
            RunSegment::Text("b".to_string()),
            RunSegment::LineBreak,
            RunSegment::Text("c".to_string()),
        ],
    };
    assert_eq!(collect_run_text(&run, &empty_rels(), &empty_imap()), "a\tb\nc");
}

#[test]
fn unresolvable_media_is_omitted() {
    let run = Run {
        bold: false,
        italic: false,
        strike: false,
        segments: vec![RunSegment::Media {
            embed_id: "rIdX".to_string(),
            alt: "pic".to_string(),
        }],
    };
    assert_eq!(collect_run_text(&run, &empty_rels(), &empty_imap()), "");
}

#[test]
fn resolved_media_renders_image_syntax() {
    let rels = RelationshipTable {
        entries: vec![RelEntry { id: "rId7".to_string(), target: "media/image1.png".to_string() }],
    };
    let run = Run {
        bold: false,
        italic: false,
        strike: false,
        segments: vec![RunSegment::Media {
            embed_id: "rId7".to_string(),
            alt: "a chart".to_string(),
        }],
    };
    assert_eq!(
        collect_run_text(&run, &rels, &empty_imap()),
        "![a chart](images/image1.png)"
    );
}

#[test]
fn media_path_prefers_exact_image_map_entry() {
    let rels = RelationshipTable {
        entries: vec![RelEntry { id: "rId7".to_string(), target: "media/image1.png".to_string() }],
    };
    let imap = ImageMap {
        entries: vec![ImageMapEntry {
            original: "media/image1.png".to_string(),
            replacement: "out/pic.png".to_string(),
        }],
    };
    assert_eq!(resolve_media(&rels, &imap, "rId7"), Some("out/pic.png".to_string()));
}

#[test]
fn media_path_falls_back_to_storage_prefix() {
    let rels = RelationshipTable {
        entries: vec![RelEntry { id: "rId7".to_string(), target: "media/image1.png".to_string() }],
    };
    let imap = ImageMap {
        entries: vec![ImageMapEntry {
            original: "word/media/image1.png".to_string(),
            replacement: "out/pic.png".to_string(),
        }],
    };
    assert_eq!(resolve_media(&rels, &imap, "rId7"), Some("out/pic.png".to_string()));
}

#[test]
fn media_path_synthesizes_when_unmapped() {
    let rels = RelationshipTable {
        entries: vec![RelEntry { id: "rId7".to_string(), target: "media/image1.png".to_string() }],
    };
    assert_eq!(
        resolve_media(&rels, &empty_imap(), "rId7"),
        Some("images/image1.png".to_string())
    );
    assert_eq!(resolve_media(&rels, &empty_imap(), "rId9"), None);
}

#[test]
fn hyperlink_targets_resolve() {
    let rels = RelationshipTable {
        entries: vec![RelEntry { id: "rId3".to_string(), target: "https://example.com".to_string() }],
    };
    let anchored = Hyperlink {
        display: None,
        anchor: Some("sec1".to_string()),
        rel_id: None,
    };
    assert_eq!(resolve_hyperlink(&rels, &anchored), Some("#sec1".to_string()));
    let external = Hyperlink {
        display: None,
        anchor: None,
        rel_id: Some("rId3".to_string()),
    };
    assert_eq!(resolve_hyperlink(&rels, &external), Some("https://example.com".to_string()));
    let missing = Hyperlink { display: None, anchor: None, rel_id: Some("rId9".to_string()) };
    assert_eq!(resolve_hyperlink(&rels, &missing), None);
}

#[test]
fn hyperlink_rendering_degrades_gracefully() {
    let rels = RelationshipTable {
        entries: vec![RelEntry { id: "rId3".to_string(), target: "https://example.com".to_string() }],
    };
    let items = vec![InlineItem::Link(Hyperlink {
        display: Some(text_run("click")),
        anchor: None,
        rel_id: Some("rId3".to_string()),
    })];
    assert_eq!(
        collect_inline_content(&items, &rels, &empty_imap()),
        "[click](https://example.com)"
    );
    let bare = vec![InlineItem::Link(Hyperlink {
        display: None,
        anchor: None,
        rel_id: Some("rId3".to_string()),
    })];
    assert_eq!(collect_inline_content(&bare, &rels, &empty_imap()), "https://example.com");
    let unresolved = vec![InlineItem::Link(Hyperlink {
        display: Some(text_run("just text")),
        anchor: None,
        rel_id: None,
    })];
    assert_eq!(collect_inline_content(&unresolved, &rels, &empty_imap()), "just text");
}

#[test]
fn heading_paragraph_renders_heading() {
    let p = Paragraph {
        style_id: Some("Heading2".to_string()),
        numbering: None,
        content: vec![InlineItem::Run(text_run("Overview"))],
    };
    let mut counters = ListCounters::new();
    let out = render_paragraph(&p, &empty_rels(), &empty_imap(), &empty_numbering(), &mut counters);
    assert_eq!(out, "## Overview\n\n");
}

#[test]
fn heading_precedence_over_numbering() {
    let table = numbering_with(NumberFormat::Decimal);
    let p = Paragraph {
        style_id: Some("Heading3".to_string()),
        numbering: Some(NumberingRef { list_id: 1, level: 0 }),
        content: vec![InlineItem::Run(text_run("Both"))],
    };
    let mut counters = ListCounters::new();
    let out = render_paragraph(&p, &empty_rels(), &empty_imap(), &table, &mut counters);
    assert_eq!(out, "### Both\n\n");
    // The heading consumed no count: the first ordinal item still says "1.".
    let item = Paragraph {
        style_id: None,
        numbering: Some(NumberingRef { list_id: 1, level: 0 }),
        content: vec![InlineItem::Run(text_run("first"))],
    };
    let out2 = render_paragraph(&item, &empty_rels(), &empty_imap(), &table, &mut counters);
    assert_eq!(out2, "1. first\n");
}

#[test]
fn empty_paragraph_keeps_spacing() {
    let p = Paragraph { style_id: None, numbering: None, content: Vec::new() };
    let mut counters = ListCounters::new();
    let out = render_paragraph(&p, &empty_rels(), &empty_imap(), &empty_numbering(), &mut counters);
    assert_eq!(out, "\n");
}

#[test]
fn ordinal_markers_count_up() {
    let table = numbering_with(NumberFormat::Decimal);
    let mut counters = ListCounters::new();
    assert_eq!(resolve_list_bullet(&table, &mut counters, 1, 0), "1.");
    assert_eq!(resolve_list_bullet(&table, &mut counters, 1, 0), "2.");
    assert_eq!(resolve_list_bullet(&table, &mut counters, 1, 0), "3.");
}

#[test]
fn roman_and_letter_styles_render_as_decimal() {
    let table = numbering_with(NumberFormat::UpperRoman);
    let mut counters = ListCounters::new();
    assert_eq!(resolve_list_bullet(&table, &mut counters, 1, 0), "1.");
    assert_eq!(resolve_list_bullet(&table, &mut counters, 1, 0), "2.");
}

#[test]
fn bullet_never_mutates_counters() {
    let mut table = numbering_with(NumberFormat::Decimal);
    table.numberings.push(NumberingEntry { num_id: Some(2), abstract_id: Some(20) });
    table.abstracts.push(AbstractNumbering {
        abstract_id: 20,
        levels: vec![LevelEntry { level: Some(0), format: Some(NumberFormat::Bullet) }],
    });
    let mut counters = ListCounters::new();
    assert_eq!(resolve_list_bullet(&table, &mut counters, 1, 0), "1.");
    assert_eq!(resolve_list_bullet(&table, &mut counters, 2, 0), "-");
    assert_eq!(resolve_list_bullet(&table, &mut counters, 2, 0), "-");
    assert_eq!(resolve_list_bullet(&table, &mut counters, 1, 0), "2.");
}

#[test]
fn unresolvable_numbering_gives_bullet() {
    let mut counters = ListCounters::new();
    assert_eq!(resolve_list_bullet(&empty_numbering(), &mut counters, 5, 0), "-");
}

#[test]
fn list_item_is_indented_by_level() {
    let table = NumberingTable {
        numberings: vec![NumberingEntry { num_id: Some(1), abstract_id: Some(10) }],
        abstracts: vec![AbstractNumbering {
            abstract_id: 10,
            levels: vec![LevelEntry { level: Some(2), format: Some(NumberFormat::Bullet) }],
        }],
    };
    let p = Paragraph {
        style_id: None,
        numbering: Some(NumberingRef { list_id: 1, level: 2 }),
        content: vec![InlineItem::Run(text_run("deep"))],
    };
    let mut counters = ListCounters::new();
    let out = render_paragraph(&p, &empty_rels(), &empty_imap(), &table, &mut counters);
    assert_eq!(out, "    - deep\n");
}

fn cell(s: &str) -> TableCell {
    TableCell { paragraphs: vec![plain_para(s)] }
}

#[test]
fn ragged_table_is_padded_to_three_columns() {
    let table = TableNode {
        rows: vec![
            TableRow { cells: vec![cell("a"), cell("b")] },
            TableRow { cells: vec![cell("c"), cell("d"), cell("e")] },
            TableRow { cells: vec![cell("f")] },
        ],
    };
    let out = render_table(&table, &empty_rels(), &empty_imap());
    assert_eq!(
        out,
        "| a | b |  |\n| --- | --- | --- |\n| c | d | e |\n| f |  |  |\n\n"
    );
    let lines: Vec<&str> = out.trim_end().lines().collect();
    assert_eq!(lines.len(), 4);
    for line in &lines {
        assert_eq!(line.matches(" |").count(), 3);
    }
    assert_eq!(lines[1], "| --- | --- | --- |");
}

#[test]
fn multi_paragraph_cells_join_with_br() {
    let table = TableNode {
        rows: vec![TableRow {
            cells: vec![TableCell { paragraphs: vec![plain_para("one"), plain_para("two")] }],
        }],
    };
    let out = render_table(&table, &empty_rels(), &empty_imap());
    assert_eq!(out, "| one<br>two |\n| --- |\n\n");
}

#[test]
fn empty_rows_are_dropped_and_empty_table_renders_nothing() {
    let table = TableNode {
        rows: vec![TableRow { cells: Vec::new() }, TableRow { cells: Vec::new() }],
    };
    assert_eq!(render_table(&table, &empty_rels(), &empty_imap()), "");
}

#[test]
fn walker_renders_document_in_order() {
    let table = numbering_with(NumberFormat::Bullet);
    let nodes = vec![
        DocumentNode::Paragraph(Paragraph {
            style_id: Some("Heading1".to_string()),
            numbering: None,
            content: vec![InlineItem::Run(text_run("Title text"))],
        }),
        DocumentNode::Paragraph(plain_para("Hello world")),
        DocumentNode::Container(vec![DocumentNode::Paragraph(Paragraph {
            style_id: None,
            numbering: Some(NumberingRef { list_id: 1, level: 0 }),
            content: vec![InlineItem::Run(text_run("item"))],
        })]),
        DocumentNode::Other,
    ];
    let out = render_body(&nodes, &empty_rels(), &empty_imap(), &table);
    assert_eq!(out, "# Title text\n\nHello world\n\n- item\n");
}

#[test]
fn counters_run_through_containers() {
    let table = numbering_with(NumberFormat::Decimal);
    let item = |s: &str| {
        DocumentNode::Paragraph(Paragraph {
            style_id: None,
            numbering: Some(NumberingRef { list_id: 1, level: 0 }),
            content: vec![InlineItem::Run(text_run(s))],
        })
    };
    let root = DocumentNode::Container(vec![
        item("a"),
        DocumentNode::Container(vec![item("b")]),
        item("c"),
    ]);
    let out = render(&root, &empty_rels(), &empty_imap(), &table);
    assert_eq!(out, "1. a\n2. b\n3. c\n");
}

#[test]
fn heading_style_variants_map_to_levels() {
    let mut counters = ListCounters::new();
    let render_style = |style: &str, counters: &mut ListCounters| {
        let p = Paragraph {
            style_id: Some(style.to_string()),
            numbering: None,
            content: vec![InlineItem::Run(text_run("x"))],
        };
        render_paragraph(&p, &empty_rels(), &empty_imap(), &empty_numbering(), counters)
    };
    assert_eq!(render_style("heading 1", &mut counters), "# x\n\n");
    assert_eq!(render_style("Title", &mut counters), "# x\n\n");
    assert_eq!(render_style("Subtitle", &mut counters), "## x\n\n");
    assert_eq!(render_style("Heading6", &mut counters), "###### x\n\n");
    // An unknown style is a plain paragraph.
    assert_eq!(render_style("BodyText", &mut counters), "x\n\n");
}

#[test]
fn separate_keys_count_independently() {
    let mut table = numbering_with(NumberFormat::Decimal);
    table.abstracts[0]
        .levels
        .push(LevelEntry { level: Some(1), format: Some(NumberFormat::Decimal) });
    let mut counters = ListCounters::new();
    assert_eq!(resolve_list_bullet(&table, &mut counters, 1, 0), "1.");
    assert_eq!(resolve_list_bullet(&table, &mut counters, 1, 1), "1.");
    assert_eq!(resolve_list_bullet(&table, &mut counters, 1, 0), "2.");
    assert_eq!(resolve_list_bullet(&table, &mut counters, 1, 1), "2.");
}

#[test]
fn missing_level_entry_gives_bullet() {
    let table = numbering_with(NumberFormat::Decimal);
    let mut counters = ListCounters::new();
    // Level 3 has no entry in the abstract definition.
    assert_eq!(resolve_list_bullet(&table, &mut counters, 1, 3), "-");
    // And the counter for the defined level was not touched.
    assert_eq!(resolve_list_bullet(&table, &mut counters, 1, 0), "1.");
}

#[test]
fn empty_container_and_unknown_nodes_render_nothing() {
    let root = DocumentNode::Container(vec![
        DocumentNode::Other,
        DocumentNode::Container(Vec::new()),
    ]);
    let out = render(&root, &empty_rels(), &empty_imap(), &empty_numbering());
    assert_eq!(out, "");
}

#[test]
fn formatted_runs_compose_inline() {
    let items = vec![
        InlineItem::Run(Run {
            bold: true,
            italic: false,
            strike: false,
            segments: vec![RunSegment::Text("bold".to_string())],
        }),
        InlineItem::Run(text_run(" and ")),
        InlineItem::Run(Run {
            bold: false,
            italic: true,
            strike: false,
            segments: vec![RunSegment::Text("italic".to_string())],
        }),
    ];
    assert_eq!(
        collect_inline_content(&items, &empty_rels(), &empty_imap()),
        "**bold** and *italic*"
    );
}
