//! Render a structured word-processing document model as clean Markdown.
//!
//! The crate models a parsed document body (paragraphs, headings, list
//! items, tables, inline formatting, hyperlinks, embedded images) with
//! plain datatypes, and renders it to GitHub-flavored Markdown.  Every
//! rendering rule is stated as a specification function and the
//! executable renderers are verified against those statements.

pub mod cli;
pub mod converter;
pub mod image;
pub mod inline;
pub mod markdown;
pub mod metadata;
pub mod model;
pub mod normalize;
pub mod numbering;
pub mod paragraph;
pub mod reader;
pub mod rels;
pub mod replace;
pub mod table;
pub mod text;
pub mod walker;
