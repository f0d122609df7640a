//! The conversion request as plain values: what to convert and where
//! the output goes.  Argument parsing itself lives outside the
//! library.

use vstd::prelude::*;

verus! {

/// One conversion request.
pub struct Cli {
    /// Path of the input file.
    pub input: String,
    /// Output path: a directory in folder mode, a file in single-file
    /// mode.  Defaults to a name derived from the input.
    pub output: Option<String>,
    /// Combine everything into a single Markdown file instead of a
    /// directory of chapter files.
    pub single: bool,
    /// Skip image extraction.
    pub no_images: bool,
}

} // verus!
