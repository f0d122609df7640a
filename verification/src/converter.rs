//! Assembly of converted output: chapter titles and file names, the
//! single-file and folder layouts, and resolution of the output path
//! from a conversion request.

use vstd::prelude::*;
use crate::cli::Cli;
use crate::normalize::{find_nl, lemma_find_nl_at};
use crate::reader::Chapter;
use crate::rels::{file_name_of, file_name_str};
use crate::text::{dec2_of, dec2_str, dec_of, dec_str, has_prefix, push_char, trim, trim_str};

verus! {

/// One chapter ready to be written out.
pub struct ConvertedChapter {
    pub title: String,
    pub filename: String,
    pub content: String,
}

/// The formats this converter understands.
#[derive(Debug, PartialEq, Eq, Clone, Copy)]
pub enum InputFormat {
    Epub,
    Docx,
}

/// A conversion request that cannot be carried out.
#[derive(Debug, PartialEq, Eq)]
pub enum ConvertError {
    /// The input path has no file name to derive an output name from.
    NoInputName,
    /// The input extension, lowercased, names no supported format.
    UnsupportedFormat(String),
}

/// The title a Markdown line yields: the text after a `# ` heading
/// marker on the trimmed line, unless that text is blank.
pub open spec fn title_of_line(l: Seq<char>) -> Option<Seq<char>> {
    if has_prefix(l, "# "@) {
        let t = trim(l.skip(2));
        if t.len() > 0 {
            Some(t)
        } else {
            None
        }
    } else {
        None
    }
}

/// The first heading title found in a Markdown text.
pub open spec fn extract_title_spec(s: Seq<char>) -> Option<Seq<char>>
    decreases s.len(),
{
    let f = find_nl(s);
    if f >= s.len() {
        title_of_line(trim(s))
    } else {
        match title_of_line(trim(s.take(f as int))) {
            Some(t) => Some(t),
            None => extract_title_spec(s.skip(f as int + 1)),
        }
    }
}

/// Find the first `# ` heading in a Markdown text and return its text.
pub fn extract_title_from_markdown(md: &str) -> (r: Option<String>)
    ensures
        match r {
            Some(t) => extract_title_spec(md@) == Some(t@),
            None => extract_title_spec(md@) is None,
        },
    decreases md@.len(),
{
    let n: usize = md.unicode_len();
    let mut j: usize = 0;
    while j < n && md.get_char(j) != '\n'
        invariant
            0 <= j <= n,
            n == md@.len(),
            forall|k: int| 0 <= k < j ==> md@[k] != '\n',
        decreases n - j,
    {
        j = j + 1;
    }
    proof {
        lemma_find_nl_at(md@, j as nat);
        if j == n {
            assert(md@.take(n as int) =~= md@);
        }
    }
    let line = md.substring_char(0, j);
    proof {
        assert(line@ =~= md@.take(j as int));
    }
    let trimmed = trim_str(line);
    let tn: usize = trimmed.unicode_len();
    if crate::text::starts_with_str(trimmed, "# ") {
        proof {
            reveal_strlit("# ");
        }
        let rest = trimmed.substring_char(2, tn);
        proof {
            assert(rest@ =~= trimmed@.skip(2));
        }
        let title = trim_str(rest);
        if !title.is_empty() {
            return Some(String::from_str(title));
        }
    }
    if j == n {
        None
    } else {
        let restmd = md.substring_char(j + 1, n);
        proof {
            assert(restmd@ =~= md@.skip(j as int + 1));
        }
        extract_title_from_markdown(restmd)
    }
}

/// The title chosen for a chapter: its own, else the first heading of
/// its content, else a numbered default.
pub open spec fn converted_title(ch: Chapter, idx: nat) -> Seq<char> {
    match ch.title {
        Some(t) => t@,
        None => match extract_title_spec(ch.content@) {
            Some(t) => t,
            None => "Chapter "@ + dec_of(idx + 1),
        },
    }
}

/// The file a chapter is written to, numbered from one with at least
/// two digits.
pub open spec fn chapter_filename(idx: nat) -> Seq<char> {
    "chapter-"@ + dec2_of(idx + 1) + ".md"@
}

/// Give every chapter its final title and file name.
pub fn build_converted_chapters(chapters: &Vec<Chapter>) -> (r: Vec<ConvertedChapter>)
    ensures
        r@.len() == chapters@.len(),
        forall|i: int|
            0 <= i < chapters@.len() ==> r@[i].title@ == converted_title(
                chapters@[i],
                i as nat,
            ) && r@[i].filename@ == chapter_filename(i as nat) && r@[i].content@
                == chapters@[i].content@,
{
    let n: usize = chapters.len();
    let mut out: Vec<ConvertedChapter> = Vec::new();
    let mut i: usize = 0;
    while i < n
        invariant
            0 <= i <= n,
            n == chapters@.len(),
            out@.len() == i,
            forall|j: int|
                0 <= j < i ==> out@[j].title@ == converted_title(chapters@[j], j as nat)
                    && out@[j].filename@ == chapter_filename(j as nat) && out@[j].content@
                    == chapters@[j].content@,
        decreases n - i,
    {
        let ch = &chapters[i];
        let title: String = match &ch.title {
            Some(t) => t.clone(),
            None => match extract_title_from_markdown(ch.content.as_str()) {
                Some(t) => t,
                None => {
                    let mut d = String::from_str("Chapter ");
                    let num = dec_str(i + 1);
                    d.append(num.as_str());
                    d
                },
            },
        };
        let mut filename = String::from_str("chapter-");
        let num2 = dec2_str(i + 1);
        filename.append(num2.as_str());
        filename.append(".md");
        out.push(ConvertedChapter { title, filename, content: ch.content.clone() });
        i = i + 1;
    }
    out
}

/// The index of the last `.`, if any.
pub open spec fn last_dot(s: Seq<char>) -> Option<nat>
    decreases s.len(),
{
    if s.len() == 0 {
        None
    } else if s.last() == '.' {
        Some((s.len() - 1) as nat)
    } else {
        last_dot(s.drop_last())
    }
}

/// `last_dot` is characterized by what lies after it.
proof fn lemma_last_dot_at(s: Seq<char>, k: nat)
    requires
        k <= s.len(),
        forall|j: int| k <= j < s.len() ==> s[j] != '.',
        k == 0 || s[k as int - 1] == '.',
    ensures
        last_dot(s) == if k == 0 {
            None::<nat>
        } else {
            Some((k - 1) as nat)
        },
    decreases s.len(),
{
    if s.len() > 0 && s.last() != '.' {
        lemma_last_dot_at(s.drop_last(), k);
    }
}

/// The file name without its extension: everything before the last
/// dot, unless the name starts with that dot.
pub open spec fn stem_of(seg: Seq<char>) -> Seq<char> {
    match last_dot(seg) {
        Some(d) => if d > 0 {
            seg.take(d as int)
        } else {
            seg
        },
        None => seg,
    }
}

/// The extension: everything after the last dot, unless the name
/// starts with that dot.
pub open spec fn extension_of(seg: Seq<char>) -> Option<Seq<char>> {
    match last_dot(seg) {
        Some(d) => if d > 0 {
            Some(seg.skip(d as int + 1))
        } else {
            None
        },
        None => None,
    }
}

/// Find the position after the last dot: `0` when there is none.
fn scan_last_dot(s: &str) -> (k: usize)
    ensures
        k <= s@.len(),
        last_dot(s@) == if k == 0 {
            None::<nat>
        } else {
            Some((k - 1) as nat)
        },
{
    let n: usize = s.unicode_len();
    let mut k: usize = n;
    while k > 0 && s.get_char(k - 1) != '.'
        invariant
            0 <= k <= n,
            n == s@.len(),
            forall|j: int| k <= j < n ==> s@[j] != '.',
        decreases k,
    {
        k = k - 1;
    }
    proof {
        lemma_last_dot_at(s@, k as nat);
    }
    k
}

/// The lowercase form of an ASCII letter; any other character stands
/// unchanged.
pub open spec fn lower_char(c: char) -> char {
    if c == 'A' {
        'a'
    } else if c == 'B' {
        'b'
    } else if c == 'C' {
        'c'
    } else if c == 'D' {
        'd'
    } else if c == 'E' {
        'e'
    } else if c == 'F' {
        'f'
    } else if c == 'G' {
        'g'
    } else if c == 'H' {
        'h'
    } else if c == 'I' {
        'i'
    } else if c == 'J' {
        'j'
    } else if c == 'K' {
        'k'
    } else if c == 'L' {
        'l'
    } else if c == 'M' {
        'm'
    } else if c == 'N' {
        'n'
    } else if c == 'O' {
        'o'
    } else if c == 'P' {
        'p'
    } else if c == 'Q' {
        'q'
    } else if c == 'R' {
        'r'
    } else if c == 'S' {
        's'
    } else if c == 'T' {
        't'
    } else if c == 'U' {
        'u'
    } else if c == 'V' {
        'v'
    } else if c == 'W' {
        'w'
    } else if c == 'X' {
        'x'
    } else if c == 'Y' {
        'y'
    } else if c == 'Z' {
        'z'
    } else {
        c
    }
}

/// A sequence of characters, lowercased letter by letter.
pub open spec fn lower_seq(s: Seq<char>) -> Seq<char> {
    Seq::new(s.len(), |i: int| lower_char(s[i]))
}

/// Lowercase the ASCII letters of a string.
fn lower_str(s: &str) -> (r: String)
    ensures
        r@ == lower_seq(s@),
{
    let n: usize = s.unicode_len();
    let mut out = String::new();
    let mut i: usize = 0;
    proof {
        assert(out@ =~= lower_seq(s@.take(0)));
    }
    while i < n
        invariant
            0 <= i <= n,
            n == s@.len(),
            out@ == lower_seq(s@.take(i as int)),
        decreases n - i,
    {
        let c = s.get_char(i);
        let lc: char = if c == 'A' {
            'a'
        } else if c == 'B' {
            'b'
        } else if c == 'C' {
            'c'
        } else if c == 'D' {
            'd'
        } else if c == 'E' {
            'e'
        } else if c == 'F' {
            'f'
        } else if c == 'G' {
            'g'
        } else if c == 'H' {
            'h'
        } else if c == 'I' {
            'i'
        } else if c == 'J' {
            'j'
        } else if c == 'K' {
            'k'
        } else if c == 'L' {
            'l'
        } else if c == 'M' {
            'm'
        } else if c == 'N' {
            'n'
        } else if c == 'O' {
            'o'
        } else if c == 'P' {
            'p'
        } else if c == 'Q' {
            'q'
        } else if c == 'R' {
            'r'
        } else if c == 'S' {
            's'
        } else if c == 'T' {
            't'
        } else if c == 'U' {
            'u'
        } else if c == 'V' {
            'v'
        } else if c == 'W' {
            'w'
        } else if c == 'X' {
            'x'
        } else if c == 'Y' {
            'y'
        } else if c == 'Z' {
            'z'
        } else {
            c
        };
        push_char(&mut out, lc);
        proof {
            assert(lower_seq(s@.take(i as int)).push(lower_char(s@[i as int])) =~= lower_seq(
                s@.take(i as int + 1),
            ));
        }
        i = i + 1;
    }
    proof {
        assert(s@.take(n as int) =~= s@);
    }
    out
}

/// The lowercased extension of the input path's file name; empty when
/// it has none.
pub open spec fn input_extension(input: Seq<char>) -> Seq<char> {
    match file_name_of(input) {
        Some(seg) => match extension_of(seg) {
            Some(e) => lower_seq(e),
            None => Seq::empty(),
        },
        None => Seq::empty(),
    }
}

/// Decide the input format from the input path's extension.
pub fn classify_format(input: &str) -> (r: Result<InputFormat, ConvertError>)
    ensures
        match r {
            Ok(InputFormat::Epub) => input_extension(input@) == "epub"@,
            Ok(InputFormat::Docx) => input_extension(input@) == "docx"@,
            Err(e) => input_extension(input@) != "epub"@ && input_extension(input@) != "docx"@
                && (e matches ConvertError::UnsupportedFormat(x) && x@ == input_extension(
                input@,
            )),
        },
{
    let ext: String = match file_name_str(input) {
        Some(seg) => {
            let sn: usize = seg.unicode_len();
            let k = scan_last_dot(seg);
            if k > 1 {
                let e = lower_str(seg.substring_char(k, sn));
                proof {
                    assert(seg@.subrange(k as int, sn as int) =~= seg@.skip(k as int));
                    assert(e@ == input_extension(input@));
                }
                e
            } else {
                proof {
                    assert(input_extension(input@) =~= Seq::<char>::empty());
                }
                String::new()
            }
        },
        None => {
            proof {
                assert(input_extension(input@) =~= Seq::<char>::empty());
            }
            String::new()
        },
    };
    if crate::text::str_eq(ext.as_str(), "epub") {
        Ok(InputFormat::Epub)
    } else if crate::text::str_eq(ext.as_str(), "docx") {
        Ok(InputFormat::Docx)
    } else {
        Err(ConvertError::UnsupportedFormat(ext))
    }
}

/// The output path a request resolves to: the explicit one when
/// given, else a name derived from the input file's stem; `None` when
/// the input path carries no file name.
pub open spec fn output_path_spec(cli: Cli) -> Option<Seq<char>> {
    match cli.output {
        Some(p) => Some(p@),
        None => match file_name_of(cli.input@) {
            None => None,
            Some(seg) => if cli.single {
                Some(stem_of(seg) + ".md"@)
            } else {
                Some(stem_of(seg))
            },
        },
    }
}

/// Resolve the output path of a request; the input path must carry a
/// file name when no output path is given.
pub fn resolve_output_path(cli: &Cli) -> (r: Result<String, ConvertError>)
    ensures
        match r {
            Ok(p) => output_path_spec(*cli) == Some(p@),
            Err(e) => output_path_spec(*cli) is None && e is NoInputName,
        },
{
    if let Some(p) = &cli.output {
        return Ok(p.clone());
    }
    let seg = match file_name_str(cli.input.as_str()) {
        Some(s) => s,
        None => {
            return Err(ConvertError::NoInputName);
        },
    };
    let k = scan_last_dot(seg);
    let stem: &str = if k > 1 {
        seg.substring_char(0, k - 1)
    } else {
        seg
    };
    proof {
        if k > 1 {
            assert(seg@.subrange(0, k as int - 1) =~= seg@.take(k as int - 1));
        }
        assert(stem@ == stem_of(seg@));
    }
    if cli.single {
        let mut out = String::from_str(stem);
        out.append(".md");
        Ok(out)
    } else {
        Ok(String::from_str(stem))
    }
}

/// The blocks appended for every chapter after the first in
/// single-file output: a rule, the content, a newline.
pub open spec fn rest_chapters(chs: Seq<ConvertedChapter>) -> Seq<char>
    decreases chs.len(),
{
    if chs.len() == 0 {
        Seq::empty()
    } else {
        "\n---\n\n"@ + chs[0].content@ + seq!['\n'] + rest_chapters(chs.drop_first())
    }
}

/// The whole single-file output: the metadata header, then every
/// chapter's content, separated by horizontal rules.
pub open spec fn single_file_spec(header: Seq<char>, chs: Seq<ConvertedChapter>) -> Seq<char> {
    if chs.len() == 0 {
        header
    } else {
        header + chs[0].content@ + seq!['\n'] + rest_chapters(chs.drop_first())
    }
}

/// The chapter blocks from index `i` on.
fn rest_chapters_from(chs: &Vec<ConvertedChapter>, i: usize) -> (r: String)
    requires
        i <= chs@.len(),
    ensures
        r@ == rest_chapters(chs@.skip(i as int)),
    decreases chs@.len() - i,
{
    if i == chs.len() {
        proof {
            assert(chs@.skip(i as int) =~= Seq::<ConvertedChapter>::empty());
        }
        String::new()
    } else {
        let mut out = String::from_str("\n---\n\n");
        out.append(chs[i].content.as_str());
        push_char(&mut out, '\n');
        let rest = rest_chapters_from(chs, i + 1);
        out.append(rest.as_str());
        proof {
            assert(chs@.skip(i as int).drop_first() =~= chs@.skip(i as int + 1));
            assert(chs@.skip(i as int)[0] == chs@[i as int]);
            assert(out@ =~= "\n---\n\n"@ + chs@[i as int].content@ + seq!['\n'] + rest_chapters(
                chs@.skip(i as int + 1),
            ));
        }
        out
    }
}

/// Assemble the single-file output.
pub fn single_file_content(metadata_header: &str, chapters: &Vec<ConvertedChapter>) -> (r:
    String)
    ensures
        r@ == single_file_spec(metadata_header@, chapters@),
{
    let mut out = String::from_str(metadata_header);
    if chapters.len() == 0 {
        return out;
    }
    out.append(chapters[0].content.as_str());
    push_char(&mut out, '\n');
    let rest = rest_chapters_from(chapters, 1);
    out.append(rest.as_str());
    proof {
        assert(out@ =~= single_file_spec(metadata_header@, chapters@));
    }
    out
}

/// The table-of-contents lines from one chapter on, numbered from
/// `idx + 1`.
pub open spec fn toc_from(chs: Seq<ConvertedChapter>, idx: nat) -> Seq<char>
    decreases chs.len(),
{
    if chs.len() == 0 {
        Seq::empty()
    } else {
        dec_of(idx + 1) + ". ["@ + chs[0].title@ + "]("@ + chs[0].filename@ + ")"@ + seq!['\n']
            + toc_from(chs.drop_first(), idx + 1)
    }
}

/// The whole folder-mode index file: the metadata header, a contents
/// heading, and one link line per chapter.
pub open spec fn readme_spec(header: Seq<char>, chs: Seq<ConvertedChapter>) -> Seq<char> {
    header + "## Table of Contents\n\n"@ + toc_from(chs, 0) + seq!['\n']
}

/// The table-of-contents lines from index `i` on.
fn toc_lines_from(chs: &Vec<ConvertedChapter>, i: usize) -> (r: String)
    requires
        i <= chs@.len(),
    ensures
        r@ == toc_from(chs@.skip(i as int), i as nat),
    decreases chs@.len() - i,
{
    if i == chs.len() {
        proof {
            assert(chs@.skip(i as int) =~= Seq::<ConvertedChapter>::empty());
        }
        String::new()
    } else {
        let mut out = dec_str(i + 1);
        out.append(". [");
        out.append(chs[i].title.as_str());
        out.append("](");
        out.append(chs[i].filename.as_str());
        out.append(")");
        push_char(&mut out, '\n');
        let rest = toc_lines_from(chs, i + 1);
        out.append(rest.as_str());
        proof {
            assert(chs@.skip(i as int).drop_first() =~= chs@.skip(i as int + 1));
            assert(chs@.skip(i as int)[0] == chs@[i as int]);
            assert(out@ =~= dec_of(i as nat + 1) + ". ["@ + chs@[i as int].title@ + "]("@
                + chs@[i as int].filename@ + ")"@ + seq!['\n'] + toc_from(
                chs@.skip(i as int + 1),
                i as nat + 1,
            ));
        }
        out
    }
}

/// Assemble the folder-mode index file with its table of contents.
pub fn readme_content(metadata_header: &str, chapters: &Vec<ConvertedChapter>) -> (r: String)
    ensures
        r@ == readme_spec(metadata_header@, chapters@),
{
    let mut out = String::from_str(metadata_header);
    out.append("## Table of Contents\n\n");
    let lines = toc_lines_from(chapters, 0);
    out.append(lines.as_str());
    push_char(&mut out, '\n');
    proof {
        assert(chapters@.skip(0) =~= chapters@);
        assert(out@ =~= readme_spec(metadata_header@, chapters@));
    }
    out
}

} // verus!
