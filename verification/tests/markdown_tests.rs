use bookmd::markdown::{clean_markdown, html_to_markdown, rewrite_image_path};
use bookmd::model::{ImageMap, ImageMapEntry};

#[test]
fn blank_runs_collapse_to_one_blank_line() {
    assert_eq!(clean_markdown("a\n\n\n\nb"), "a\n\nb\n");
}

#[test]
fn lines_are_right_trimmed() {
    assert_eq!(clean_markdown("a  \nb\t\nc"), "a\nb\nc\n");
}

#[test]
fn output_ends_with_single_newline() {
    assert_eq!(clean_markdown("a\n\n\n"), "a\n");
    assert_eq!(clean_markdown("a"), "a\n");
}

#[test]
fn empty_input_stays_empty() {
    assert_eq!(clean_markdown(""), "");
    assert_eq!(clean_markdown(" \n \n "), "");
}

#[test]
fn cleanup_is_idempotent_on_clean_text() {
    let inputs = [
        "a\n\n\n\nb",
        "# Title\n\n\ntext  \nmore\n\n\n\n",
        "",
        "x",
        "a\nb\n\nc\n",
    ];
    for input in &inputs {
        let once = clean_markdown(input);
        let twice = clean_markdown(&once);
        assert_eq!(twice, once);
    }
}

#[test]
fn carriage_returns_are_trimmed_from_line_ends() {
    assert_eq!(clean_markdown("a\r\nb\r\n"), "a\nb\n");
}

#[test]
fn whitespace_only_lines_become_empty_lines() {
    assert_eq!(clean_markdown("a \n \nb"), "a\n\nb\n");
}

#[test]
fn unicode_whitespace_is_trimmed() {
    assert_eq!(clean_markdown("a\u{00A0}\nb\u{2003}"), "a\nb\n");
    assert_eq!(clean_markdown("\u{2028}\u{3000}"), "");
}

#[test]
fn repeated_replacement_covers_all_occurrences() {
    let out = rewrite_image_path("![a](p.png) and ![b](p.png)", "p.png", "images/p.png");
    assert_eq!(out, "![a](images/p.png) and ![b](images/p.png)");
}

#[test]
fn literal_path_is_replaced() {
    let out = rewrite_image_path("![x](Images/fig.png)", "Images/fig.png", "images/fig.png");
    assert_eq!(out, "![x](images/fig.png)");
}

#[test]
fn bare_filename_is_replaced_inside_link_syntax() {
    let out = rewrite_image_path("![x](fig.png)", "../Images/fig.png", "images/fig.png");
    assert_eq!(out, "![x](images/fig.png)");
}

#[test]
fn bare_filename_is_replaced_inside_quotes() {
    let out = rewrite_image_path("<img src=\"fig.png\">", "a/fig.png", "images/new.png");
    assert_eq!(out, "<img src=\"images/new.png\">");
}

#[test]
fn unrelated_prose_is_left_alone() {
    let out = rewrite_image_path("the file fig.png is mentioned", "a/fig.png", "images/new.png");
    assert_eq!(out, "the file fig.png is mentioned");
}

#[test]
fn empty_original_reference_changes_nothing() {
    assert_eq!(rewrite_image_path("text", "", "x"), "text");
}

#[test]
fn html_becomes_markdown() {
    let out = html_to_markdown("<p>hello <b>world</b></p>", &ImageMap { entries: Vec::new() });
    assert!(out.contains("**world**"), "got: {:?}", out);
    assert!(!out.contains("<b>"));
    assert!(out.ends_with('\n'));
}

#[test]
fn html_image_paths_are_rewritten() {
    let imap = ImageMap {
        entries: vec![ImageMapEntry {
            original: "OEBPS/Images/cover.jpeg".to_string(),
            replacement: "images/cover.jpeg".to_string(),
        }],
    };
    let out = html_to_markdown("<p><img src=\"cover.jpeg\" alt=\"c\"></p>", &imap);
    assert_eq!(out, "![c](images/cover.jpeg)\n");
}
