//! The range finder: which stretches of a transcript are private (verbatim
//! occurrences of a private literal) and which are public (what lies between
//! them).
//!
//! The model works on `Span`s over mathematical integers. `find_ranges`
//! computes both families for a recorded transcript and is proved equal to
//! the model.

use std::ops::Range;
use vstd::prelude::*;

verus! {

/// A half-open interval `[start, end)` of transcript offsets.
pub struct Span {
    pub start: int,
    pub end: int,
}

impl Span {
    /// Offset `i` lies inside the interval.
    pub open spec fn contains(self, i: int) -> bool {
        self.start <= i < self.end
    }
}

/// The interval that an executable range stands for.
pub open spec fn span_of(r: Range<usize>) -> Span {
    Span { start: r.start as int, end: r.end as int }
}

/// The intervals that a list of executable ranges stands for.
pub open spec fn spans_of(rs: Seq<Range<usize>>) -> Seq<Span> {
    rs.map_values(|r: Range<usize>| span_of(r))
}

/// The byte strings that a list of borrowed literals stands for.
pub open spec fn literals_of(lits: Seq<&[u8]>) -> Seq<Seq<u8>> {
    lits.map_values(|l: &[u8]| l@)
}

/// `lit` occurs verbatim in `t` at offset `i`.
pub open spec fn occurs_at(t: Seq<u8>, lit: Seq<u8>, i: int) -> bool {
    0 <= i && i + lit.len() <= t.len() && t.subrange(i, i + lit.len()) == lit
}

/// How many windows of the literal's length the transcript has.
pub open spec fn window_count(t: Seq<u8>, lit: Seq<u8>) -> int {
    if lit.len() <= t.len() {
        t.len() - lit.len() + 1
    } else {
        0
    }
}

/// The occurrences of `lit` in `t` that begin before offset `upto`, by
/// ascending offset. Overlapping occurrences are all listed.
pub open spec fn occurrences_before(t: Seq<u8>, lit: Seq<u8>, upto: int) -> Seq<Span>
    decreases upto,
{
    if upto <= 0 {
        Seq::empty()
    } else if occurs_at(t, lit, upto - 1) {
        occurrences_before(t, lit, upto - 1).push(
            Span { start: upto - 1, end: upto - 1 + lit.len() },
        )
    } else {
        occurrences_before(t, lit, upto - 1)
    }
}

/// Every occurrence of `lit` in `t`, by ascending offset.
pub open spec fn occurrences(t: Seq<u8>, lit: Seq<u8>) -> Seq<Span> {
    occurrences_before(t, lit, window_count(t, lit))
}

/// The private ranges of `t`: the occurrences of the first literal, then
/// those of the second, and so on. Nothing is merged and nothing is dropped,
/// so a range may appear twice and ranges may overlap.
pub open spec fn private_ranges(t: Seq<u8>, lits: Seq<Seq<u8>>) -> Seq<Span>
    decreases lits.len(),
{
    if lits.len() == 0 {
        Seq::empty()
    } else {
        private_ranges(t, lits.drop_last()) + occurrences(t, lits.last())
    }
}

/// `r` placed into `s` behind every range that starts no later than `r`
/// does, the order of `s` kept.
pub open spec fn insert_by_start(s: Seq<Span>, r: Span) -> Seq<Span>
    decreases s.len(),
{
    if s.len() == 0 || s.last().start <= r.start {
        s.push(r)
    } else {
        insert_by_start(s.drop_last(), r).push(s.last())
    }
}

/// `s` ordered by start offset; ranges with the same start keep the order
/// they had in `s`.
pub open spec fn sort_by_start(s: Seq<Span>) -> Seq<Span>
    decreases s.len(),
{
    if s.len() == 0 {
        Seq::empty()
    } else {
        insert_by_start(sort_by_start(s.drop_last()), s.last())
    }
}

/// The stretch in front of the `i`-th range of `sorted`: it begins where the
/// range before it ends (at offset 0 for the first) and ends where the `i`-th
/// range starts (at `len` behind the last). The ranges further back are not
/// consulted, so where ranges overlap a gap may reach into an earlier range.
pub open spec fn gap(sorted: Seq<Span>, len: int, i: int) -> Span {
    Span {
        start: if i <= 0 {
            0
        } else {
            sorted[i - 1].end
        },
        end: if i < sorted.len() {
            sorted[i].start
        } else {
            len
        },
    }
}

/// The gaps in front of the first `upto` ranges of `sorted` that hold at
/// least one offset, in order.
pub open spec fn gaps_before(sorted: Seq<Span>, len: int, upto: int) -> Seq<Span>
    decreases upto,
{
    if upto <= 0 {
        Seq::empty()
    } else if gap(sorted, len, upto - 1).start < gap(sorted, len, upto - 1).end {
        gaps_before(sorted, len, upto - 1).push(gap(sorted, len, upto - 1))
    } else {
        gaps_before(sorted, len, upto - 1)
    }
}

/// The public ranges that a sweep over `sorted` leaves in a transcript of
/// `len` bytes: every gap that is not empty, the one behind the last range
/// included.
pub open spec fn public_ranges(sorted: Seq<Span>, len: int) -> Seq<Span> {
    gaps_before(sorted, len, sorted.len() as int + 1)
}

/// The public ranges of transcript `t` under the private literals `lits`.
pub open spec fn public_ranges_of(t: Seq<u8>, lits: Seq<Seq<u8>>) -> Seq<Span> {
    public_ranges(sort_by_start(private_ranges(t, lits)), t.len() as int)
}

/// `s` is an occurrence of one of the literals in `t`.
pub open spec fn is_occurrence(t: Seq<u8>, lits: Seq<Seq<u8>>, s: Span) -> bool {
    exists|l: int|
        0 <= l < lits.len() && occurs_at(t, #[trigger] lits[l], s.start) && s.end == s.start
            + lits[l].len()
}

/// Every range lies inside a transcript of `len` bytes, its start no later
/// than its end.
pub open spec fn within(s: Seq<Span>, len: int) -> bool {
    forall|k: int| 0 <= k < s.len() ==> 0 <= (#[trigger] s[k]).start <= s[k].end <= len
}

/// In the order given, no range starts before one in front of it does.
pub open spec fn starts_ascend(s: Seq<Span>) -> bool {
    forall|i: int, j: int|
        0 <= i <= j < s.len() ==> (#[trigger] s[i]).start <= (#[trigger] s[j]).start
}

/// Every range holds at least one offset and lies inside a transcript of
/// `len` bytes, and each range ends before the next one starts: the ranges
/// ascend and no two of them touch.
pub open spec fn separated(s: Seq<Span>, len: int) -> bool {
    &&& forall|k: int| 0 <= k < s.len() ==> 0 <= (#[trigger] s[k]).start < s[k].end <= len
    &&& forall|i: int, j: int|
        0 <= i < j < s.len() ==> (#[trigger] s[i]).end < (#[trigger] s[j]).start
}

/// The ranges of `s` that start at offset `at`, in the order they have in `s`.
pub open spec fn starting_at(s: Seq<Span>, at: int) -> Seq<Span> {
    s.filter(|r: Span| r.start == at)
}

/// Every literal holds at least one byte.
pub open spec fn literals_nonempty(lits: Seq<Seq<u8>>) -> bool {
    forall|k: int| 0 <= k < lits.len() ==> (#[trigger] lits[k]).len() > 0
}

/// Some range of `ranges` holds offset `i`.
pub open spec fn covered_by(ranges: Seq<Span>, i: int) -> bool {
    exists|k: int| 0 <= k < ranges.len() && (#[trigger] ranges[k]).contains(i)
}

/// In the order given, no range ends before one in front of it does.
pub open spec fn ends_ascend(s: Seq<Span>) -> bool {
    forall|i: int, j: int| 0 <= i <= j < s.len() ==> (#[trigger] s[i]).end <= (#[trigger] s[j]).end
}

/// Each range starts no later than the one before it ends, and the last one
/// reaches offset `len`: a sweep over `s` finds no gap behind its first range.
pub open spec fn chained(s: Seq<Span>, len: int) -> bool {
    &&& s.len() > 0
    &&& forall|j: int| 0 < j < s.len() ==> (#[trigger] s[j]).start <= s[j - 1].end
    &&& s.last().end >= len
}

} // verus!
