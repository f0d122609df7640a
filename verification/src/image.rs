//! Naming of extracted images: the file each image is written to and
//! the map from original references to output-relative paths.

use vstd::prelude::*;
use crate::model::{ImageMap, ImageMapEntry};
use crate::reader::ImageResource;
use crate::rels::{file_name_of, file_name_str};

verus! {

/// The file name an image reference is stored under: the file name the
/// reference carries, or a fixed fallback name when it has none.
pub open spec fn clean_filename_spec(href: Seq<char>) -> Seq<char> {
    match file_name_of(href) {
        Some(seg) => seg,
        None => "image.bin"@,
    }
}

/// Pick the output file name for one image reference.
pub fn clean_filename(href: &str) -> (r: String)
    ensures
        r@ == clean_filename_spec(href@),
{
    match file_name_str(href) {
        Some(seg) => String::from_str(seg),
        None => String::from_str("image.bin"),
    }
}

/// The output-relative path recorded for one image reference.
pub open spec fn image_output_path(href: Seq<char>) -> Seq<char> {
    "images/"@ + clean_filename_spec(href)
}

/// Build the image map for a set of extracted images: each original
/// reference maps to its path under the `images/` output directory.
pub fn build_image_map(images: &Vec<ImageResource>) -> (r: ImageMap)
    ensures
        r.entries@.len() == images@.len(),
        forall|i: int|
            0 <= i < images@.len() ==> r.entries@[i].original@ == images@[i].original_href@
                && r.entries@[i].replacement@ == image_output_path(images@[i].original_href@),
{
    let n: usize = images.len();
    let mut entries: Vec<ImageMapEntry> = Vec::new();
    let mut i: usize = 0;
    while i < n
        invariant
            0 <= i <= n,
            n == images@.len(),
            entries@.len() == i,
            forall|j: int|
                0 <= j < i ==> entries@[j].original@ == images@[j].original_href@
                    && entries@[j].replacement@ == image_output_path(images@[j].original_href@),
        decreases n - i,
    {
        let mut replacement = String::from_str("images/");
        let fname = clean_filename(images[i].original_href.as_str());
        replacement.append(fname.as_str());
        entries.push(
            ImageMapEntry { original: images[i].original_href.clone(), replacement },
        );
        i = i + 1;
    }
    ImageMap { entries }
}

} // verus!
