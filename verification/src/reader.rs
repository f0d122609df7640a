//! Shared representations of a read document, whatever its source
//! format: chapters of converted Markdown, embedded images, and
//! document metadata.

use vstd::prelude::*;

verus! {

/// One chapter of converted Markdown content.
pub struct Chapter {
    pub title: Option<String>,
    pub content: String,
}

/// One embedded image: the reference it is stored under in the source
/// document, and its raw bytes.
pub struct ImageResource {
    pub original_href: String,
    pub data: Vec<u8>,
}

/// Document metadata shared across input formats.
pub struct Metadata {
    pub title: Option<String>,
    pub authors: Vec<String>,
    pub publisher: Option<String>,
    pub language: Option<String>,
    pub description: Option<String>,
}

/// A failure while reading a source document.
pub struct ReadError {
    pub message: String,
}

/// A reader of one source document format.  Implementations live with
/// the code that opens the container format.
pub trait BookReader {
    /// Extract chapters as Markdown content.
    fn chapters(&self) -> Result<Vec<Chapter>, ReadError>;

    /// Extract embedded images.
    fn images(&self) -> Result<Vec<ImageResource>, ReadError>;

    /// Extract document metadata.
    fn metadata(&self) -> Metadata;
}

} // verus!
