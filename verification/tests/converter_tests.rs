use bookmd::cli::Cli;
use bookmd::converter::{
    build_converted_chapters, classify_format, extract_title_from_markdown, readme_content,
    resolve_output_path, single_file_content, ConvertError, InputFormat,
};
use bookmd::image::{build_image_map, clean_filename};
use bookmd::metadata::format_metadata;
use bookmd::reader::{Chapter, ImageResource, Metadata};

#[test]
fn metadata_block_is_formatted() {
    let meta = Metadata {
        title: Some("The Book".to_string()),
        authors: vec!["Alice".to_string(), " ".to_string(), "Bob".to_string()],
        publisher: Some("Pub".to_string()),
        language: Some("en".to_string()),
        description: Some("Desc".to_string()),
    };
    assert_eq!(
        format_metadata(&meta),
        "# The Book\n\n**Author:** Alice, Bob\n**Publisher:** Pub\n**Language:** en\n\n> Desc\n\n---\n\n"
    );
}

#[test]
fn empty_metadata_formats_to_nothing() {
    let meta = Metadata {
        title: None,
        authors: Vec::new(),
        publisher: None,
        language: None,
        description: None,
    };
    assert_eq!(format_metadata(&meta), "");
}

#[test]
fn blank_fields_are_skipped() {
    let meta = Metadata {
        title: Some("  ".to_string()),
        authors: vec!["".to_string()],
        publisher: None,
        language: Some("fr".to_string()),
        description: None,
    };
    assert_eq!(format_metadata(&meta), "**Language:** fr\n\n---\n\n");
}

#[test]
fn chapter_titles_fall_back_in_order() {
    let chapters = vec![
        Chapter { title: Some("Given".to_string()), content: "# Ignored\n".to_string() },
        Chapter { title: None, content: "intro\n# Found Title\nrest\n".to_string() },
        Chapter { title: None, content: "no heading here\n".to_string() },
    ];
    let converted = build_converted_chapters(&chapters);
    assert_eq!(converted.len(), 3);
    assert_eq!(converted[0].title, "Given");
    assert_eq!(converted[1].title, "Found Title");
    assert_eq!(converted[2].title, "Chapter 3");
    assert_eq!(converted[0].filename, "chapter-01.md");
    assert_eq!(converted[1].filename, "chapter-02.md");
    assert_eq!(converted[2].filename, "chapter-03.md");
    assert_eq!(converted[1].content, chapters[1].content);
}

#[test]
fn titles_extract_from_first_heading() {
    assert_eq!(extract_title_from_markdown("# My Title\n"), Some("My Title".to_string()));
    assert_eq!(extract_title_from_markdown("text\n  # Spaced  \nmore"), Some("Spaced".to_string()));
    assert_eq!(extract_title_from_markdown("#NoSpace\n"), None);
    assert_eq!(extract_title_from_markdown("# \ntext"), None);
    assert_eq!(extract_title_from_markdown(""), None);
}

#[test]
fn output_path_uses_explicit_output() {
    let cli = Cli {
        input: "books/thing.epub".to_string(),
        output: Some("out".to_string()),
        single: false,
        no_images: false,
    };
    assert_eq!(resolve_output_path(&cli), Ok("out".to_string()));
}

#[test]
fn output_path_derives_from_stem() {
    let folder = Cli {
        input: "books/thing.epub".to_string(),
        output: None,
        single: false,
        no_images: false,
    };
    assert_eq!(resolve_output_path(&folder), Ok("thing".to_string()));
    let single = Cli {
        input: "books/thing.epub".to_string(),
        output: None,
        single: true,
        no_images: false,
    };
    assert_eq!(resolve_output_path(&single), Ok("thing.md".to_string()));
}

#[test]
fn missing_input_name_is_an_error() {
    let no_name = |input: &str| Cli {
        input: input.to_string(),
        output: None,
        single: false,
        no_images: false,
    };
    assert_eq!(resolve_output_path(&no_name("")), Err(ConvertError::NoInputName));
    assert_eq!(resolve_output_path(&no_name(".")), Err(ConvertError::NoInputName));
    assert_eq!(resolve_output_path(&no_name("..")), Err(ConvertError::NoInputName));
    assert_eq!(resolve_output_path(&no_name("a/..")), Err(ConvertError::NoInputName));
}

#[test]
fn formats_classify_by_extension() {
    assert_eq!(classify_format("a/Book.EPUB"), Ok(InputFormat::Epub));
    assert_eq!(classify_format("doc.docx"), Ok(InputFormat::Docx));
    assert_eq!(
        classify_format("notes.txt"),
        Err(ConvertError::UnsupportedFormat("txt".to_string()))
    );
    assert_eq!(
        classify_format("bare"),
        Err(ConvertError::UnsupportedFormat("".to_string()))
    );
}

#[test]
fn filenames_are_cleaned() {
    assert_eq!(clean_filename("OEBPS/Images/fig.png"), "fig.png");
    assert_eq!(clean_filename("fig.png"), "fig.png");
    assert_eq!(clean_filename("dir/"), "dir");
    assert_eq!(clean_filename(""), "image.bin");
    assert_eq!(clean_filename("."), "image.bin");
    assert_eq!(clean_filename("a/.."), "image.bin");
}

#[test]
fn image_map_records_output_paths() {
    let images = vec![
        ImageResource { original_href: "OEBPS/Images/a.png".to_string(), data: vec![1, 2] },
        ImageResource { original_href: "b.jpeg".to_string(), data: Vec::new() },
    ];
    let map = build_image_map(&images);
    assert_eq!(map.entries.len(), 2);
    assert_eq!(map.entries[0].original, "OEBPS/Images/a.png");
    assert_eq!(map.entries[0].replacement, "images/a.png");
    assert_eq!(map.entries[1].original, "b.jpeg");
    assert_eq!(map.entries[1].replacement, "images/b.jpeg");
}

#[test]
fn single_file_output_joins_chapters_with_rules() {
    let chapters = vec![
        Chapter { title: None, content: "A\n".to_string() },
        Chapter { title: None, content: "B\n".to_string() },
    ];
    let converted = build_converted_chapters(&chapters);
    let out = single_file_content("H\n", &converted);
    assert_eq!(out, "H\nA\n\n\n---\n\nB\n\n");
}

#[test]
fn readme_lists_chapters() {
    let chapters = vec![
        Chapter { title: Some("One".to_string()), content: "x".to_string() },
        Chapter { title: Some("Two".to_string()), content: "y".to_string() },
    ];
    let converted = build_converted_chapters(&chapters);
    let out = readme_content("H\n", &converted);
    assert_eq!(
        out,
        "H\n## Table of Contents\n\n1. [One](chapter-01.md)\n2. [Two](chapter-02.md)\n\n"
    );
}
