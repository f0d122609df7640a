//! Resolution of in-document reference identifiers: embedded-image
//! relationship ids to output paths, and hyperlink references to
//! targets or anchors.

use vstd::prelude::*;
use crate::model::{Hyperlink, ImageMap, RelationshipTable};

verus! {

/// The characters of a path after its last `/`, or the whole path when
/// it has none.
pub open spec fn last_segment(s: Seq<char>) -> Seq<char>
    decreases s.len(),
{
    if s.len() == 0 {
        s
    } else if s.last() == '/' {
        Seq::empty()
    } else {
        last_segment(s.drop_last()).push(s.last())
    }
}

/// `last_segment` keeps exactly the suffix after the last slash.
proof fn lemma_last_segment_skip(s: Seq<char>, k: int)
    requires
        0 <= k <= s.len(),
        forall|j: int| k <= j < s.len() ==> s[j] != '/',
        k == 0 || s[k - 1] == '/',
    ensures
        last_segment(s) == s.skip(k),
    decreases s.len(),
{
    if s.len() == 0 {
        assert(s.skip(k) =~= s);
    } else if k == s.len() {
        assert(s.last() == '/');
        assert(s.skip(k) =~= Seq::<char>::empty());
    } else {
        assert(s.last() != '/');
        lemma_last_segment_skip(s.drop_last(), k);
        assert(s.drop_last().skip(k).push(s.last()) =~= s.skip(k));
    }
}

/// Extract the final path segment.
pub fn last_segment_str(s: &str) -> (r: &str)
    ensures
        r@ == last_segment(s@),
{
    let n: usize = s.unicode_len();
    let mut k: usize = n;
    while k > 0 && s.get_char(k - 1) != '/'
        invariant
            0 <= k <= n,
            n == s@.len(),
            forall|j: int| k <= j < n ==> s@[j] != '/',
        decreases k,
    {
        k = k - 1;
    }
    proof {
        lemma_last_segment_skip(s@, k as int);
    }
    s.substring_char(k, n)
}

/// A path with its trailing slashes removed.
pub open spec fn strip_trailing_slashes(s: Seq<char>) -> Seq<char>
    decreases s.len(),
{
    if s.len() > 0 && s.last() == '/' {
        strip_trailing_slashes(s.drop_last())
    } else {
        s
    }
}

/// `strip_trailing_slashes` keeps exactly the prefix before the
/// trailing slashes.
proof fn lemma_strip_trailing_take(s: Seq<char>, e: int)
    requires
        0 <= e <= s.len(),
        forall|j: int| e <= j < s.len() ==> s[j] == '/',
        e == 0 || s[e - 1] != '/',
    ensures
        strip_trailing_slashes(s) == s.take(e),
    decreases s.len(),
{
    if s.len() == 0 || e == s.len() {
        assert(s.take(e) =~= s);
    } else {
        lemma_strip_trailing_take(s.drop_last(), e);
        assert(s.drop_last().take(e) =~= s.take(e));
    }
}

/// The file name a path carries, as paths name files: trailing slashes
/// are ignored, and an empty final segment, `.` and `..` name no file.
/// (A `.` or `..` elsewhere in the path is treated as an ordinary
/// segment.)
pub open spec fn file_name_of(s: Seq<char>) -> Option<Seq<char>> {
    let seg = last_segment(strip_trailing_slashes(s));
    if seg.len() == 0 || seg == "."@ || seg == ".."@ {
        None
    } else {
        Some(seg)
    }
}

/// Extract the file name of a path, if it has one.
pub fn file_name_str(s: &str) -> (r: Option<&str>)
    ensures
        match r {
            Some(seg) => file_name_of(s@) == Some(seg@),
            None => file_name_of(s@) is None,
        },
{
    let n: usize = s.unicode_len();
    let mut e: usize = n;
    while e > 0 && s.get_char(e - 1) == '/'
        invariant
            0 <= e <= n,
            n == s@.len(),
            forall|j: int| e <= j < n ==> s@[j] == '/',
        decreases e,
    {
        e = e - 1;
    }
    proof {
        lemma_strip_trailing_take(s@, e as int);
    }
    let mut k: usize = e;
    while k > 0 && s.get_char(k - 1) != '/'
        invariant
            0 <= k <= e <= n,
            n == s@.len(),
            forall|j: int| k <= j < e ==> s@[j] != '/',
        decreases k,
    {
        k = k - 1;
    }
    proof {
        assert(forall|j: int| 0 <= j < e ==> s@.take(e as int)[j] == s@[j]);
        lemma_last_segment_skip(s@.take(e as int), k as int);
        assert(s@.take(e as int).skip(k as int) =~= s@.subrange(k as int, e as int));
    }
    let seg = s.substring_char(k, e);
    if seg.is_empty() || crate::text::str_eq(seg, ".") || crate::text::str_eq(seg, "..") {
        None
    } else {
        Some(seg)
    }
}

/// The output path chosen for an image whose relationship target is
/// `target`: the image map's entry for the target itself, else its
/// entry for the target nested under the source format's storage
/// prefix, else a synthesized path under `images/`.
pub open spec fn media_target_path(imap: ImageMap, target: Seq<char>) -> Seq<char> {
    match imap.spec_get(target) {
        Some(mapped) => mapped,
        None => match imap.spec_get("word/"@ + target) {
            Some(mapped) => mapped,
            None => "images/"@ + last_segment(target),
        },
    }
}

/// The resolved output path for an embedded image: `None` exactly when
/// the embed id has no relationship entry.
pub open spec fn media_path(rels: RelationshipTable, imap: ImageMap, embed_id: Seq<char>) -> Option<
    Seq<char>,
> {
    match rels.spec_lookup(embed_id) {
        None => None,
        Some(target) => Some(media_target_path(imap, target)),
    }
}

/// Resolve an embedded image's relationship id to an output path.
pub fn resolve_media(rels: &RelationshipTable, imap: &ImageMap, embed_id: &str) -> (r: Option<
    String,
>)
    ensures
        match r {
            Some(p) => media_path(*rels, *imap, embed_id@) == Some(p@),
            None => media_path(*rels, *imap, embed_id@) is None,
        },
{
    let target = match rels.lookup(embed_id) {
        Some(t) => t,
        None => {
            return None;
        },
    };
    if let Some(mapped) = imap.get(target.as_str()) {
        return Some(mapped.clone());
    }
    let mut prefixed = String::from_str("word/");
    prefixed.append(target.as_str());
    if let Some(mapped) = imap.get(prefixed.as_str()) {
        return Some(mapped.clone());
    }
    let mut synth = String::from_str("images/");
    synth.append(last_segment_str(target.as_str()));
    Some(synth)
}

/// The target a hyperlink renders with: `#anchor` for an internal
/// anchor, the relationship target for an external id, `None` when
/// neither resolves.
pub open spec fn hyperlink_target(rels: RelationshipTable, link: Hyperlink) -> Option<Seq<char>> {
    match link.anchor {
        Some(anchor) => Some("#"@ + anchor@),
        None => match link.rel_id {
            Some(id) => rels.spec_lookup(id@),
            None => None,
        },
    }
}

/// Resolve a hyperlink's reference to the target it renders with.
pub fn resolve_hyperlink(rels: &RelationshipTable, link: &Hyperlink) -> (r: Option<String>)
    ensures
        match r {
            Some(t) => hyperlink_target(*rels, *link) == Some(t@),
            None => hyperlink_target(*rels, *link) is None,
        },
{
    if let Some(anchor) = &link.anchor {
        let mut out = String::from_str("#");
        out.append(anchor.as_str());
        return Some(out);
    }
    if let Some(id) = &link.rel_id {
        return match rels.lookup(id.as_str()) {
            Some(t) => Some(t.clone()),
            None => None,
        };
    }
    None
}

} // verus!
