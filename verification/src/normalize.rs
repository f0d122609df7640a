//! Whitespace normalization of rendered Markdown: collapse runs of
//! blank lines, right-trim every line, and end the text with exactly
//! one newline.

use vstd::prelude::*;
use crate::text::{is_ws, push_char, rtrim};

verus! {

/// Whether the character at `i` is the third of three consecutive
/// newlines.
pub open spec fn third_nl(s: Seq<char>, i: int) -> bool {
    i >= 2 && s[i] == '\n' && s[i - 1] == '\n' && s[i - 2] == '\n'
}

/// No three consecutive newlines anywhere.
pub open spec fn no_triple_nl(s: Seq<char>) -> bool {
    forall|i: int| 2 <= i < s.len() ==> !third_nl(s, i)
}

/// Collapse every run of three or more newlines down to two: a newline
/// preceded by two newlines is dropped.
pub open spec fn collapse(s: Seq<char>) -> Seq<char>
    decreases s.len(),
{
    if s.len() == 0 {
        s
    } else if third_nl(s, s.len() - 1) {
        collapse(s.drop_last())
    } else {
        collapse(s.drop_last()).push(s.last())
    }
}

/// A text without triple newlines is already collapsed.
pub proof fn lemma_collapse_fixed(s: Seq<char>)
    requires
        no_triple_nl(s),
    ensures
        collapse(s) == s,
    decreases s.len(),
{
    if s.len() > 0 {
        assert forall|i: int| 2 <= i < s.drop_last().len() implies !third_nl(
            s.drop_last(),
            i,
        ) by {
            assert(!third_nl(s, i));
            assert(s.drop_last()[i] == s[i]);
            assert(s.drop_last()[i - 1] == s[i - 1]);
            assert(s.drop_last()[i - 2] == s[i - 2]);
        }
        lemma_collapse_fixed(s.drop_last());
        assert(!third_nl(s, s.len() - 1));
        assert(s.drop_last().push(s.last()) =~= s);
    }
}

/// The index of the first newline, or the length when there is none.
pub open spec fn find_nl(s: Seq<char>) -> nat
    decreases s.len(),
{
    if s.len() == 0 {
        0
    } else if s[0] == '\n' {
        0
    } else {
        1 + find_nl(s.drop_first())
    }
}

/// `find_nl` is characterized by what lies before and at it.
pub proof fn lemma_find_nl_at(s: Seq<char>, k: nat)
    requires
        k <= s.len(),
        forall|j: int| 0 <= j < k ==> s[j] != '\n',
        k == s.len() || s[k as int] == '\n',
    ensures
        find_nl(s) == k,
    decreases s.len(),
{
    if s.len() > 0 && s[0] != '\n' {
        lemma_find_nl_at(s.drop_first(), (k - 1) as nat);
    }
}

/// What is known of `find_nl` without further hypotheses.
pub proof fn lemma_find_nl_props(s: Seq<char>)
    ensures
        find_nl(s) <= s.len(),
        forall|j: int| 0 <= j < find_nl(s) ==> s[j] != '\n',
        find_nl(s) < s.len() ==> s[find_nl(s) as int] == '\n',
    decreases s.len(),
{
    if s.len() > 0 && s[0] != '\n' {
        lemma_find_nl_props(s.drop_first());
        assert forall|j: int| 0 <= j < find_nl(s) implies s[j] != '\n' by {
            if j > 0 {
                assert(s.drop_first()[j - 1] == s[j]);
            }
        }
        if find_nl(s) < s.len() {
            assert(s.drop_first()[find_nl(s.drop_first()) as int] == s[find_nl(s) as int]);
        }
    }
}

/// Right-trim every line.
pub open spec fn trim_lines(s: Seq<char>) -> Seq<char>
    decreases s.len(),
{
    let f = find_nl(s);
    if f >= s.len() {
        rtrim(s)
    } else {
        rtrim(s.take(f as int)) + seq!['\n'] + trim_lines(s.skip(f as int + 1))
    }
}

/// Every line is already right-trimmed.
pub open spec fn all_rtrimmed(s: Seq<char>) -> bool
    decreases s.len(),
{
    let f = find_nl(s);
    if f >= s.len() {
        rtrim(s) == s
    } else {
        rtrim(s.take(f as int)) == s.take(f as int) && all_rtrimmed(s.skip(f as int + 1))
    }
}

/// `rtrim` returns a prefix.
pub proof fn lemma_rtrim_prefix(s: Seq<char>)
    ensures
        rtrim(s).len() <= s.len(),
        rtrim(s) == s.take(rtrim(s).len() as int),
    decreases s.len(),
{
    if s.len() > 0 && is_ws(s.last()) {
        lemma_rtrim_prefix(s.drop_last());
        assert(s.drop_last().take(rtrim(s).len() as int) =~= s.take(rtrim(s).len() as int));
    } else if s.len() > 0 {
        assert(s.take(s.len() as int) =~= s);
    } else {
        assert(s.take(0) =~= s);
    }
}

/// A non-empty `rtrim` result ends with non-whitespace.
pub proof fn lemma_rtrim_ends(s: Seq<char>)
    ensures
        rtrim(s).len() > 0 ==> !is_ws(rtrim(s).last()),
    decreases s.len(),
{
    if s.len() > 0 && is_ws(s.last()) {
        lemma_rtrim_ends(s.drop_last());
    }
}

/// A text that is empty or ends with non-whitespace is its own
/// right-trim.
pub proof fn lemma_rtrim_fixed(s: Seq<char>)
    requires
        s.len() == 0 || !is_ws(s.last()),
    ensures
        rtrim(s) == s,
{
}

/// Trailing newlines disappear under `rtrim`.
pub proof fn lemma_rtrim_push_nl(s: Seq<char>)
    ensures
        rtrim(s.push('\n')) == rtrim(s),
{
    assert(s.push('\n').drop_last() =~= s);
}

/// A prefix that ends at non-whitespace keeps every line trimmed.
pub proof fn lemma_all_rtrimmed_prefix(s: Seq<char>, k: nat)
    requires
        all_rtrimmed(s),
        k <= s.len(),
        k == 0 || !is_ws(s[k as int - 1]),
    ensures
        all_rtrimmed(s.take(k as int)),
    decreases s.len(),
{
    let f = find_nl(s);
    let p = s.take(k as int);
    lemma_find_nl_props(s);
    if k <= f {
        assert(forall|j: int| 0 <= j < p.len() ==> p[j] != '\n');
        lemma_find_nl_at(p, k);
        assert(p.len() == 0 || !is_ws(p.last()));
        lemma_rtrim_fixed(p);
    } else {
        assert(forall|j: int| 0 <= j < f ==> p[j] != '\n');
        assert(p[f as int] == '\n');
        lemma_find_nl_at(p, f);
        assert(p.take(f as int) =~= s.take(f as int));
        let s2 = s.skip(f as int + 1);
        let k2 = (k - f - 1) as nat;
        assert(k2 == 0 || !is_ws(s2[k2 as int - 1]));
        lemma_all_rtrimmed_prefix(s2, k2);
        assert(p.skip(f as int + 1) =~= s2.take(k2 as int));
    }
}

/// Appending one newline to a trimmed text that ends at
/// non-whitespace keeps every line trimmed.
pub proof fn lemma_all_rtrimmed_push_nl(s: Seq<char>)
    requires
        all_rtrimmed(s),
        s.len() == 0 || !is_ws(s.last()),
    ensures
        all_rtrimmed(s.push('\n')),
    decreases s.len(),
{
    let f = find_nl(s);
    let p = s.push('\n');
    lemma_find_nl_props(s);
    if f >= s.len() {
        assert(forall|j: int| 0 <= j < s.len() ==> p[j] == s[j]);
        lemma_find_nl_at(p, s.len());
        assert(p.take(s.len() as int) =~= s);
        assert(p.skip(s.len() as int + 1) =~= Seq::<char>::empty());
        assert(all_rtrimmed(Seq::<char>::empty()));
        assert(rtrim(s) == s);
    } else {
        lemma_find_nl_at(p, f);
        assert(p.take(f as int) =~= s.take(f as int));
        let s2 = s.skip(f as int + 1);
        assert(s2.len() == 0 || !is_ws(s2.last()));
        lemma_all_rtrimmed_push_nl(s2);
        assert(p.skip(f as int + 1) =~= s2.push('\n'));
    }
}

/// `trim_lines` leaves every line right-trimmed.
pub proof fn lemma_trim_lines_trimmed(s: Seq<char>)
    ensures
        all_rtrimmed(trim_lines(s)),
    decreases s.len(),
{
    let f = find_nl(s);
    lemma_find_nl_props(s);
    if f >= s.len() {
        let t = rtrim(s);
        lemma_rtrim_prefix(s);
        lemma_rtrim_ends(s);
        assert(forall|j: int| 0 <= j < t.len() ==> t[j] == s[j]);
        assert(forall|j: int| 0 <= j < t.len() ==> t[j] != '\n');
        lemma_find_nl_at(t, t.len() as nat);
        lemma_rtrim_fixed(t);
    } else {
        let line = rtrim(s.take(f as int));
        let rest = trim_lines(s.skip(f as int + 1));
        let t = line + seq!['\n'] + rest;
        lemma_rtrim_prefix(s.take(f as int));
        lemma_rtrim_ends(s.take(f as int));
        assert(forall|j: int| 0 <= j < line.len() ==> line[j] == s.take(f as int)[j]);
        assert(forall|j: int| 0 <= j < line.len() ==> t[j] == line[j]);
        assert(forall|j: int| 0 <= j < line.len() ==> t[j] != '\n');
        assert(t[line.len() as int] == '\n');
        lemma_find_nl_at(t, line.len() as nat);
        assert(t.take(line.len() as int) =~= line);
        lemma_rtrim_fixed(line);
        lemma_trim_lines_trimmed(s.skip(f as int + 1));
        assert(t.skip(line.len() as int + 1) =~= rest);
    }
}

/// A text whose lines are all right-trimmed is its own `trim_lines`.
pub proof fn lemma_trim_lines_fixed(s: Seq<char>)
    requires
        all_rtrimmed(s),
    ensures
        trim_lines(s) == s,
    decreases s.len(),
{
    let f = find_nl(s);
    lemma_find_nl_props(s);
    if f < s.len() {
        lemma_trim_lines_fixed(s.skip(f as int + 1));
        assert(trim_lines(s) == s.take(f as int) + seq!['\n'] + s.skip(f as int + 1));
        assert(s.take(f as int) + seq!['\n'] + s.skip(f as int + 1) =~= s);
    }
}

/// Final cleanup: right-trim the whole text, then end it with exactly
/// one newline, or return the empty text.
pub open spec fn norm_finish(s: Seq<char>) -> Seq<char> {
    let t = rtrim(s);
    if t.len() == 0 {
        t
    } else {
        t.push('\n')
    }
}

/// The whole normalization pipeline.
pub open spec fn spec_normalize(s: Seq<char>) -> Seq<char> {
    norm_finish(trim_lines(collapse(s)))
}

/// Right-trim a string slice.
pub fn rtrim_str<'a>(s: &'a str) -> (r: &'a str)
    ensures
        r@ == rtrim(s@),
{
    let n: usize = s.unicode_len();
    let mut b: usize = n;
    while b > 0 && crate::text::ws_char(s.get_char(b - 1))
        invariant
            0 <= b <= n,
            n == s@.len(),
            forall|j: int| b <= j < n ==> is_ws(s@[j]),
        decreases b,
    {
        b = b - 1;
    }
    proof {
        crate::text::lemma_rtrim_take(s@, b as int);
        assert(s@.subrange(0, b as int) =~= s@.take(b as int));
    }
    s.substring_char(0, b)
}

/// Drop every newline that follows two others.
pub fn collapse_str(s: &str) -> (r: String)
    ensures
        r@ == collapse(s@),
{
    let n: usize = s.unicode_len();
    let mut out = String::new();
    let mut i: usize = 0;
    proof {
        assert(s@.take(0) =~= Seq::<char>::empty());
    }
    while i < n
        invariant
            0 <= i <= n,
            n == s@.len(),
            out@ == collapse(s@.take(i as int)),
        decreases n - i,
    {
        let c = s.get_char(i);
        let dropped = i >= 2 && c == '\n' && s.get_char(i - 1) == '\n' && s.get_char(i - 2)
            == '\n';
        proof {
            let p = s@.take(i as int + 1);
            assert(p.drop_last() =~= s@.take(i as int));
            assert(p.last() == s@[i as int]);
            if i >= 2 {
                assert(p[i as int - 1] == s@[i as int - 1]);
                assert(p[i as int - 2] == s@[i as int - 2]);
            }
            assert(dropped == third_nl(p, i as int));
        }
        if !dropped {
            push_char(&mut out, c);
        }
        i = i + 1;
    }
    proof {
        assert(s@.take(n as int) =~= s@);
    }
    out
}

/// Right-trim every line.
pub fn trim_lines_str(s: &str) -> (r: String)
    ensures
        r@ == trim_lines(s@),
    decreases s@.len(),
{
    let n: usize = s.unicode_len();
    let mut j: usize = 0;
    while j < n && s.get_char(j) != '\n'
        invariant
            0 <= j <= n,
            n == s@.len(),
            forall|k: int| 0 <= k < j ==> s@[k] != '\n',
        decreases n - j,
    {
        j = j + 1;
    }
    proof {
        lemma_find_nl_at(s@, j as nat);
    }
    if j == n {
        String::from_str(rtrim_str(s))
    } else {
        let line = s.substring_char(0, j);
        let rest = s.substring_char(j + 1, n);
        proof {
            assert(line@ =~= s@.take(j as int));
            assert(rest@ =~= s@.skip(j as int + 1));
        }
        let mut out = String::from_str(rtrim_str(line));
        push_char(&mut out, '\n');
        let tail = trim_lines_str(rest);
        out.append(tail.as_str());
        proof {
            assert(out@ =~= rtrim(s@.take(j as int)) + seq!['\n'] + trim_lines(
                s@.skip(j as int + 1),
            ));
        }
        out
    }
}

/// Idempotence: a second normalization changes nothing, provided the
/// first pass left no run of three newlines behind.  (Trimming a
/// whitespace-only line can merge the newlines around it into such a
/// run, which only the next pass would collapse.)
pub proof fn lemma_normalize_idempotent(x: Seq<char>)
    requires
        no_triple_nl(spec_normalize(x)),
    ensures
        spec_normalize(spec_normalize(x)) == spec_normalize(x),
{
    let z = trim_lines(collapse(x));
    let w = rtrim(z);
    let y = spec_normalize(x);
    lemma_trim_lines_trimmed(collapse(x));
    lemma_rtrim_prefix(z);
    lemma_rtrim_ends(z);
    lemma_collapse_fixed(y);
    if w.len() == 0 {
        assert(y == w);
        assert(rtrim(y) =~= y);
        assert(trim_lines(y) == y) by {
            lemma_trim_lines_fixed(y);
            lemma_all_rtrimmed_prefix(z, 0);
            assert(z.take(0) =~= w);
        }
    } else {
        assert(y == w.push('\n'));
        lemma_all_rtrimmed_prefix(z, w.len() as nat);
        assert(z.take(w.len() as int) =~= w);
        lemma_all_rtrimmed_push_nl(w);
        lemma_trim_lines_fixed(y);
        lemma_rtrim_push_nl(w);
        lemma_rtrim_fixed(w);
        assert(rtrim(y) == w);
        assert(spec_normalize(y) == norm_finish(y));
        assert(norm_finish(y) == y);
    }
}

} // verus!
