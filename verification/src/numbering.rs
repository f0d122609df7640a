//! List numbering: resolve the marker of a list item from the
//! document's numbering tables, counting ordinal items per
//! `(list id, level)` pair.
//!
//! All ordinal marker styles render as Arabic numerals followed by a
//! period; the style is looked up only to tell ordinal kinds from
//! bullets.  Counters are never reset within one render pass, so items
//! sharing a `(list id, level)` pair anywhere in the document share one
//! running count.

use vstd::prelude::*;
use vstd::pervasive::VecAdditionalExecFns;
use crate::model::{AbstractNumbering, LevelEntry, NumberFormat, NumberingEntry, NumberingTable};
use crate::text::{dec_of, dec_str, push_char};

verus! {

/// One running counter.
pub struct CounterEntry {
    pub list_id: usize,
    pub level: usize,
    pub count: usize,
}

/// The mutable counter state of one render pass.
pub struct ListCounters {
    pub entries: Vec<CounterEntry>,
}

/// The count recorded for a key, `0` when absent (first match).
pub open spec fn count_in(entries: Seq<CounterEntry>, list_id: usize, level: usize) -> nat
    decreases entries.len(),
{
    if entries.len() == 0 {
        0
    } else if entries[0].list_id == list_id && entries[0].level == level {
        entries[0].count as nat
    } else {
        count_in(entries.drop_first(), list_id, level)
    }
}

impl ListCounters {
    /// The running count for one `(list id, level)` pair.
    pub open spec fn count_of(self, list_id: usize, level: usize) -> nat {
        count_in(self.entries@, list_id, level)
    }

    /// Fresh state: every count is zero.
    pub fn new() -> (r: ListCounters)
        ensures
            forall|i: usize, l: usize| r.count_of(i, l) == 0,
    {
        ListCounters { entries: Vec::new() }
    }
}

/// A count moves up by one until it would no longer fit in a machine
/// word, where it stays.
pub open spec fn next_count(c: nat) -> nat {
    if c < usize::MAX as nat {
        c + 1
    } else {
        c
    }
}

/// Updating the first entry that carries a key changes that key's count
/// and no other.
proof fn lemma_count_update(
    entries: Seq<CounterEntry>,
    i: int,
    e: CounterEntry,
    list_id: usize,
    level: usize,
)
    requires
        0 <= i < entries.len(),
        entries[i].list_id == list_id && entries[i].level == level,
        forall|j: int|
            0 <= j < i ==> !(entries[j].list_id == list_id && entries[j].level == level),
        e.list_id == list_id,
        e.level == level,
    ensures
        count_in(entries.update(i, e), list_id, level) == e.count as nat,
        forall|i2: usize, l2: usize|
            !(i2 == list_id && l2 == level) ==> count_in(entries.update(i, e), i2, l2)
                == count_in(entries, i2, l2),
    decreases entries.len(),
{
    if i == 0 {
        assert(entries.update(0, e)[0] == e);
        assert(entries.update(0, e).drop_first() =~= entries.drop_first());
        assert forall|i2: usize, l2: usize| !(i2 == list_id && l2 == level) implies count_in(
            entries.update(0, e),
            i2,
            l2,
        ) == count_in(entries, i2, l2) by {
            assert(count_in(entries.update(0, e), i2, l2) == count_in(
                entries.drop_first(),
                i2,
                l2,
            ));
            assert(count_in(entries, i2, l2) == count_in(entries.drop_first(), i2, l2));
        }
    } else {
        lemma_count_update(entries.drop_first(), i - 1, e, list_id, level);
        assert(entries.update(i, e).drop_first() =~= entries.drop_first().update(i - 1, e));
        assert(entries.update(i, e)[0] == entries[0]);
        assert forall|i2: usize, l2: usize| !(i2 == list_id && l2 == level) implies count_in(
            entries.update(i, e),
            i2,
            l2,
        ) == count_in(entries, i2, l2) by {
            assert(count_in(entries.drop_first().update(i - 1, e), i2, l2) == count_in(
                entries.drop_first(),
                i2,
                l2,
            ));
        }
    }
}

/// Appending an entry for a key that has none sets that key's count and
/// no other.
proof fn lemma_count_push(entries: Seq<CounterEntry>, e: CounterEntry)
    requires
        forall|j: int|
            0 <= j < entries.len() ==> !(entries[j].list_id == e.list_id && entries[j].level
                == e.level),
    ensures
        count_in(entries.push(e), e.list_id, e.level) == e.count as nat,
        forall|i2: usize, l2: usize|
            !(i2 == e.list_id && l2 == e.level) ==> count_in(entries.push(e), i2, l2) == count_in(
                entries,
                i2,
                l2,
            ),
    decreases entries.len(),
{
    if entries.len() == 0 {
        assert(entries.push(e)[0] == e);
        assert(entries.push(e).drop_first() =~= Seq::<CounterEntry>::empty());
        assert forall|i2: usize, l2: usize| !(i2 == e.list_id && l2 == e.level) implies count_in(
            entries.push(e),
            i2,
            l2,
        ) == count_in(entries, i2, l2) by {
            assert(count_in(entries.push(e), i2, l2) == count_in(
                Seq::<CounterEntry>::empty(),
                i2,
                l2,
            ));
        }
    } else {
        lemma_count_push(entries.drop_first(), e);
        assert(entries.push(e).drop_first() =~= entries.drop_first().push(e));
        assert(entries.push(e)[0] == entries[0]);
        assert forall|i2: usize, l2: usize| !(i2 == e.list_id && l2 == e.level) implies count_in(
            entries.push(e),
            i2,
            l2,
        ) == count_in(entries, i2, l2) by {
            assert(count_in(entries.drop_first().push(e), i2, l2) == count_in(
                entries.drop_first(),
                i2,
                l2,
            ));
        }
    }
}

/// The first entry carrying a key records that key's count.
proof fn lemma_count_first(entries: Seq<CounterEntry>, i: int, list_id: usize, level: usize)
    requires
        0 <= i < entries.len(),
        entries[i].list_id == list_id && entries[i].level == level,
        forall|j: int|
            0 <= j < i ==> !(entries[j].list_id == list_id && entries[j].level == level),
    ensures
        count_in(entries, list_id, level) == entries[i].count as nat,
    decreases entries.len(),
{
    if i > 0 {
        lemma_count_first(entries.drop_first(), i - 1, list_id, level);
    }
}

/// A key with no entry counts zero.
proof fn lemma_count_absent(entries: Seq<CounterEntry>, list_id: usize, level: usize)
    requires
        forall|j: int|
            0 <= j < entries.len() ==> !(entries[j].list_id == list_id && entries[j].level
                == level),
    ensures
        count_in(entries, list_id, level) == 0,
    decreases entries.len(),
{
    if entries.len() > 0 {
        lemma_count_absent(entries.drop_first(), list_id, level);
    }
}

impl ListCounters {
    /// Move the count for a key up by one and return the new count.
    fn bump(&mut self, list_id: usize, level: usize) -> (c: usize)
        ensures
            c as nat == next_count(old(self).count_of(list_id, level)),
            final(self).count_of(list_id, level) == c as nat,
            forall|i2: usize, l2: usize|
                !(i2 == list_id && l2 == level) ==> final(self).count_of(i2, l2) == old(
                    self,
                ).count_of(i2, l2),
    {
        let n: usize = self.entries.len();
        let mut i: usize = 0;
        while i < n
            invariant
                0 <= i <= n,
                n == self.entries@.len(),
                *self == *old(self),
                forall|j: int|
                    0 <= j < i ==> !(self.entries@[j].list_id == list_id
                        && self.entries@[j].level == level),
            decreases n - i,
        {
            if self.entries[i].list_id == list_id && self.entries[i].level == level {
                let prev: usize = self.entries[i].count;
                let c: usize = if prev < usize::MAX {
                    prev + 1
                } else {
                    prev
                };
                proof {
                    lemma_count_first(self.entries@, i as int, list_id, level);
                }
                let e = CounterEntry { list_id, level, count: c };
                proof {
                    lemma_count_update(self.entries@, i as int, e, list_id, level);
                }
                self.entries.set(i, e);
                return c;
            }
            i = i + 1;
        }
        proof {
            lemma_count_absent(self.entries@, list_id, level);
        }
        let e = CounterEntry { list_id, level, count: 1 };
        proof {
            lemma_count_push(self.entries@, e);
        }
        self.entries.push(e);
        1
    }
}

/// The abstract definition referenced by a concrete numbering id: the
/// first concrete entry carrying the id that also names an abstract
/// definition.
pub open spec fn abstract_of(nums: Seq<NumberingEntry>, list_id: usize) -> Option<usize>
    decreases nums.len(),
{
    if nums.len() == 0 {
        None
    } else if nums[0].num_id == Some(list_id) && nums[0].abstract_id is Some {
        nums[0].abstract_id
    } else {
        abstract_of(nums.drop_first(), list_id)
    }
}

/// The level entries of the first abstract definition carrying an id.
pub open spec fn levels_of(abstracts: Seq<AbstractNumbering>, abstract_id: usize) -> Option<
    Seq<LevelEntry>,
>
    decreases abstracts.len(),
{
    if abstracts.len() == 0 {
        None
    } else if abstracts[0].abstract_id == abstract_id {
        Some(abstracts[0].levels@)
    } else {
        levels_of(abstracts.drop_first(), abstract_id)
    }
}

/// The marker style of the first level entry for an indent level that
/// records one.
pub open spec fn format_at(levels: Seq<LevelEntry>, level: usize) -> Option<NumberFormat>
    decreases levels.len(),
{
    if levels.len() == 0 {
        None
    } else if levels[0].level == Some(level) && levels[0].format is Some {
        levels[0].format
    } else {
        format_at(levels.drop_first(), level)
    }
}

/// The marker style resolved for a list item: concrete id to abstract
/// definition to level entry; `None` when any link is missing.
pub open spec fn kind_of(table: NumberingTable, list_id: usize, level: usize) -> Option<
    NumberFormat,
> {
    match abstract_of(table.numberings@, list_id) {
        None => None,
        Some(aid) => match levels_of(table.abstracts@, aid) {
            None => None,
            Some(levels) => format_at(levels, level),
        },
    }
}

/// The styles that consume a running count.
pub open spec fn is_ordinal(f: NumberFormat) -> bool {
    match f {
        NumberFormat::Decimal => true,
        NumberFormat::UpperRoman => true,
        NumberFormat::LowerRoman => true,
        NumberFormat::UpperLetter => true,
        NumberFormat::LowerLetter => true,
        _ => false,
    }
}

/// Whether a resolution for this key consumes a count.
pub open spec fn resolves_ordinal(table: NumberingTable, list_id: usize, level: usize) -> bool {
    match kind_of(table, list_id, level) {
        Some(f) => is_ordinal(f),
        None => false,
    }
}

/// The marker a resolution returns, given the count recorded for its
/// key before the call.
pub open spec fn marker_spec(
    table: NumberingTable,
    list_id: usize,
    level: usize,
    count: nat,
) -> Seq<char> {
    if resolves_ordinal(table, list_id, level) {
        dec_of(next_count(count)) + "."@
    } else {
        "-"@
    }
}

/// Find the abstract definition for a concrete numbering id.
fn abstract_for(table: &NumberingTable, list_id: usize) -> (r: Option<usize>)
    ensures
        r == abstract_of(table.numberings@, list_id),
{
    let n: usize = table.numberings.len();
    let mut i: usize = 0;
    proof {
        assert(table.numberings@.skip(0) =~= table.numberings@);
    }
    while i < n
        invariant
            0 <= i <= n,
            n == table.numberings@.len(),
            abstract_of(table.numberings@.skip(i as int), list_id) == abstract_of(
                table.numberings@,
                list_id,
            ),
        decreases n - i,
    {
        proof {
            assert(table.numberings@.skip(i as int).drop_first() =~= table.numberings@.skip(
                i as int + 1,
            ));
        }
        let entry = &table.numberings[i];
        match (entry.num_id, entry.abstract_id) {
            (Some(id), Some(aid)) => {
                if id == list_id {
                    return Some(aid);
                }
            },
            _ => {},
        }
        i = i + 1;
    }
    None
}

/// Find the marker style recorded for a key.
fn kind_for(table: &NumberingTable, list_id: usize, level: usize) -> (r: Option<NumberFormat>)
    ensures
        r == kind_of(*table, list_id, level),
{
    let aid = match abstract_for(table, list_id) {
        Some(aid) => aid,
        None => {
            return None;
        },
    };
    let m: usize = table.abstracts.len();
    let mut i: usize = 0;
    proof {
        assert(table.abstracts@.skip(0) =~= table.abstracts@);
    }
    while i < m
        invariant
            0 <= i <= m,
            m == table.abstracts@.len(),
            abstract_of(table.numberings@, list_id) == Some(aid),
            levels_of(table.abstracts@.skip(i as int), aid) == levels_of(table.abstracts@, aid),
        decreases m - i,
    {
        proof {
            assert(table.abstracts@.skip(i as int).drop_first() =~= table.abstracts@.skip(
                i as int + 1,
            ));
        }
        if table.abstracts[i].abstract_id == aid {
            proof {
                assert(table.abstracts@.skip(i as int)[0] == table.abstracts@[i as int]);
            }
            let levels = &table.abstracts[i].levels;
            let k: usize = levels.len();
            let mut j: usize = 0;
            proof {
                assert(levels@.skip(0) =~= levels@);
            }
            while j < k
                invariant
                    0 <= j <= k,
                    k == levels@.len(),
                    abstract_of(table.numberings@, list_id) == Some(aid),
                    levels_of(table.abstracts@, aid) == Some(levels@),
                    format_at(levels@.skip(j as int), level) == format_at(levels@, level),
                decreases k - j,
            {
                proof {
                    assert(levels@.skip(j as int).drop_first() =~= levels@.skip(j as int + 1));
                }
                proof {
                    assert(levels@.skip(j as int)[0] == levels@[j as int]);
                }
                let entry = &levels[j];
                match (entry.level, entry.format) {
                    (Some(l), Some(f)) => {
                        if l == level {
                            return Some(f);
                        }
                    },
                    _ => {},
                }
                j = j + 1;
            }
            proof {
                assert(levels@.skip(k as int) =~= Seq::<LevelEntry>::empty());
            }
            return None;
        }
        i = i + 1;
    }
    proof {
        assert(table.abstracts@.skip(m as int) =~= Seq::<AbstractNumbering>::empty());
    }
    None
}

/// Resolve the marker for a list item, counting it when its style is
/// ordinal.  Bullet, `none`, unrecognized and unresolvable styles all
/// yield a plain `-` and leave every counter unchanged.
pub fn resolve_list_bullet(
    table: &NumberingTable,
    counters: &mut ListCounters,
    list_id: usize,
    level: usize,
) -> (r: String)
    ensures
        r@ == marker_spec(*table, list_id, level, old(counters).count_of(list_id, level)),
        resolves_ordinal(*table, list_id, level) ==> final(counters).count_of(list_id, level)
            == next_count(old(counters).count_of(list_id, level)),
        !resolves_ordinal(*table, list_id, level) ==> *final(counters) == *old(counters),
        forall|i2: usize, l2: usize|
            !(i2 == list_id && l2 == level) ==> final(counters).count_of(i2, l2) == old(
                counters,
            ).count_of(i2, l2),
{
    let ordinal = match kind_for(table, list_id, level) {
        Some(f) => match f {
            NumberFormat::Decimal => true,
            NumberFormat::UpperRoman => true,
            NumberFormat::LowerRoman => true,
            NumberFormat::UpperLetter => true,
            NumberFormat::LowerLetter => true,
            _ => false,
        },
        None => false,
    };
    if ordinal {
        let c = counters.bump(list_id, level);
        let mut out = dec_str(c);
        push_char(&mut out, '.');
        proof {
            assert(dec_of(c as nat).push('.') =~= dec_of(c as nat) + "."@) by {
                reveal_strlit(".");
            }
        }
        out
    } else {
        String::from_str("-")
    }
}

/// The count a key holds after `n` ordinal resolutions that started
/// from fresh state.
pub open spec fn count_after(n: nat) -> nat
    decreases n,
{
    if n == 0 {
        0
    } else {
        next_count(count_after((n - 1) as nat))
    }
}

/// Counter monotonicity: starting from fresh state, the `n`-th of a run
/// of ordinal resolutions for one `(list id, level)` pair sees count
/// `n - 1` and returns the marker `n.`; no other key's count moves.
pub proof fn lemma_counter_monotonic(
    table: NumberingTable,
    list_id: usize,
    level: usize,
    n: nat,
)
    requires
        resolves_ordinal(table, list_id, level),
        1 <= n <= usize::MAX as nat,
    ensures
        count_after((n - 1) as nat) == n - 1,
        marker_spec(table, list_id, level, count_after((n - 1) as nat)) == dec_of(n) + "."@,
    decreases n,
{
    if n == 1 {
    } else {
        lemma_counter_monotonic(table, list_id, level, (n - 1) as nat);
    }
}

/// A resolution whose style is not ordinal (a bullet, `none`, an
/// unrecognized style, or no style at all) moves no counter.
pub proof fn lemma_bullet_never_counts(
    table: NumberingTable,
    list_id: usize,
    level: usize,
    count: nat,
)
    requires
        !resolves_ordinal(table, list_id, level),
    ensures
        marker_spec(table, list_id, level, count) == "-"@,
{
}

} // verus!
