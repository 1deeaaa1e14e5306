//! The executable range finder, proved against the model of `ranges`.

use crate::bytes::bytes_eq;
use crate::range_laws::{
    lemma_chained_iff_nothing_public, lemma_coverage, lemma_ends_ascend_chained,
    lemma_no_literals, lemma_public_ranges_separated, lemma_whole_transcript_first,
};
use crate::ranges::{
    chained, covered_by, ends_ascend, gap, gaps_before, insert_by_start, literals_nonempty,
    literals_of, occurrences, occurrences_before, private_ranges, public_ranges,
    public_ranges_of, separated, sort_by_start, span_of, spans_of, Span,
};
use std::ops::Range;
use vstd::prelude::*;
use vstd::slice::slice_subrange;

verus! {

/// Where `r` lands when it is placed into `s`: at `j`, if every range from
/// `j` on starts later than `r` and the one before `j` does not.
proof fn lemma_insert_position(s: Seq<Span>, r: Span, j: int)
    requires
        0 <= j <= s.len(),
        forall|i: int| j <= i < s.len() ==> (#[trigger] s[i]).start > r.start,
        j > 0 ==> s[j - 1].start <= r.start,
    ensures
        insert_by_start(s, r) == s.insert(j, r),
    decreases s.len() - j,
{
    if j == s.len() {
        assert(s.push(r) =~= s.insert(j, r));
    } else {
        assert(s.last().start > r.start);
        lemma_insert_position(s.drop_last(), r, j);
        assert(s.drop_last().insert(j, r).push(s.last()) =~= s.insert(j, r));
    }
}

/// Appends to `found` every occurrence of `lit` in `seq`, by ascending offset.
fn push_occurrences(found: &mut Vec<Range<usize>>, seq: &[u8], lit: &[u8])
    requires
        lit@.len() > 0,
    ensures
        spans_of(final(found)@) == spans_of(old(found)@) + occurrences(seq@, lit@),
{
    let n: usize = seq.len();
    let m: usize = lit.len();
    if m > n {
        assert(spans_of(found@) + Seq::<Span>::empty() =~= spans_of(found@));
        return ;
    }
    let windows: usize = n - m + 1;
    let mut idx: usize = 0;
    assert(spans_of(found@) + Seq::<Span>::empty() =~= spans_of(found@));
    while idx < windows
        invariant
            n == seq@.len(),
            m == lit@.len(),
            0 < m <= n,
            windows == n - m + 1,
            idx <= windows,
            spans_of(found@) == spans_of(old(found)@) + occurrences_before(
                seq@,
                lit@,
                idx as int,
            ),
        decreases windows - idx,
    {
        let window = slice_subrange(seq, idx, idx + m);
        if bytes_eq(window, lit) {
            let ghost before = found@;
            found.push(idx..idx + m);
            assert(spans_of(found@) =~= spans_of(before).push(
                Span { start: idx as int, end: idx + m },
            ));
        }
        idx += 1;
    }
}

/// The ranges of `ranges` ordered by start offset, equal starts in the order
/// they came in.
fn sorted_by_start(ranges: &Vec<Range<usize>>) -> (sorted: Vec<Range<usize>>)
    ensures
        spans_of(sorted@) == sort_by_start(spans_of(ranges@)),
{
    let mut sorted: Vec<Range<usize>> = Vec::new();
    let mut k: usize = 0;
    assert(spans_of(ranges@).take(0) =~= Seq::<Span>::empty());
    assert(spans_of(sorted@) =~= Seq::<Span>::empty());
    while k < ranges.len()
        invariant
            k <= ranges@.len(),
            spans_of(sorted@) == sort_by_start(spans_of(ranges@).take(k as int)),
        decreases ranges@.len() - k,
    {
        let start: usize = ranges[k].start;
        let end: usize = ranges[k].end;
        let mut j: usize = sorted.len();
        while j > 0 && sorted[j - 1].start > start
            invariant
                j <= sorted@.len(),
                forall|i: int| j <= i < sorted@.len() ==> (#[trigger] sorted@[i]).start > start,
            decreases j,
        {
            j -= 1;
        }
        proof {
            let model = spans_of(sorted@);
            let r = span_of(ranges@[k as int]);
            assert forall|i: int| j <= i < model.len() implies (#[trigger] model[i]).start
                > r.start by {
                assert(sorted@[i].start > start);
            }
            lemma_insert_position(model, r, j as int);
            let upto = spans_of(ranges@).take(k + 1);
            assert(upto.drop_last() =~= spans_of(ranges@).take(k as int));
            assert(upto.last() == r);
        }
        let ghost before = sorted@;
        sorted.insert(j, start..end);
        assert(spans_of(sorted@) =~= spans_of(before).insert(
            j as int,
            span_of(ranges@[k as int]),
        ));
        k += 1;
    }
    assert(spans_of(ranges@).take(ranges@.len() as int) =~= spans_of(ranges@));
    sorted
}

/// The gaps that a left-to-right sweep over `sorted` finds in a transcript of
/// `len` bytes. The cursor moves to the end of each range as it is met,
/// whatever it was before.
fn sweep(sorted: &Vec<Range<usize>>, len: usize) -> (public: Vec<Range<usize>>)
    ensures
        spans_of(public@) == public_ranges(spans_of(sorted@), len as int),
{
    let mut public: Vec<Range<usize>> = Vec::new();
    let mut last_end: usize = 0;
    let mut i: usize = 0;
    assert(spans_of(public@) =~= Seq::<Span>::empty());
    while i < sorted.len()
        invariant
            i <= sorted@.len(),
            last_end as int == gap(spans_of(sorted@), len as int, i as int).start,
            spans_of(public@) == gaps_before(spans_of(sorted@), len as int, i as int),
        decreases sorted@.len() - i,
    {
        let start: usize = sorted[i].start;
        let end: usize = sorted[i].end;
        if start > last_end {
            let ghost before = public@;
            public.push(last_end..start);
            assert(spans_of(public@) =~= spans_of(before).push(
                Span { start: last_end as int, end: start as int },
            ));
        }
        last_end = end;
        i += 1;
    }
    if last_end < len {
        let ghost before = public@;
        public.push(last_end..len);
        assert(spans_of(public@) =~= spans_of(before).push(
            Span { start: last_end as int, end: len as int },
        ));
    }
    public
}

/// Every occurrence of every literal, literal by literal.
fn collect_private(seq: &[u8], sub_seq: &[&[u8]]) -> (private: Vec<Range<usize>>)
    requires
        literals_nonempty(literals_of(sub_seq@)),
    ensures
        spans_of(private@) == private_ranges(seq@, literals_of(sub_seq@)),
{
    let ghost lits = literals_of(sub_seq@);
    let mut private: Vec<Range<usize>> = Vec::new();
    let mut k: usize = 0;
    assert(lits.take(0) =~= Seq::<Seq<u8>>::empty());
    assert(spans_of(private@) =~= Seq::<Span>::empty());
    while k < sub_seq.len()
        invariant
            k <= sub_seq@.len(),
            lits == literals_of(sub_seq@),
            literals_nonempty(lits),
            spans_of(private@) == private_ranges(seq@, lits.take(k as int)),
        decreases sub_seq@.len() - k,
    {
        assert(lits[k as int] == sub_seq@[k as int]@);
        push_occurrences(&mut private, seq, sub_seq[k]);
        proof {
            assert(lits.take(k + 1).drop_last() =~= lits.take(k as int));
            assert(lits.take(k + 1).last() == lits[k as int]);
        }
        k += 1;
    }
    assert(lits.take(lits.len() as int) =~= lits);
    private
}

/// What follows for the two families from what they are.
proof fn lemma_found(t: Seq<u8>, lits: Seq<Seq<u8>>)
    requires
        literals_nonempty(lits),
    ensures
        separated(public_ranges_of(t, lits), t.len() as int),
        forall|i: int|
            0 <= i < t.len() ==> covered_by(public_ranges_of(t, lits), i) || covered_by(
                private_ranges(t, lits),
                i,
            ),
        lits.len() == 0 ==> private_ranges(t, lits).len() == 0,
        lits.len() == 0 && t.len() > 0 ==> public_ranges_of(t, lits) == seq![
            Span { start: 0, end: t.len() as int },
        ],
        lits.contains(t) ==> (public_ranges_of(t, lits).len() == 0 <==> chained(
            sort_by_start(private_ranges(t, lits)),
            t.len() as int,
        )),
        lits.contains(t) && ends_ascend(sort_by_start(private_ranges(t, lits)))
            ==> public_ranges_of(t, lits).len() == 0,
{
    lemma_coverage(t, lits);
    lemma_public_ranges_separated(t, lits);
    if lits.len() == 0 {
        assert(lits =~= Seq::<Seq<u8>>::empty());
        lemma_no_literals(t);
    }
    if lits.contains(t) {
        lemma_whole_transcript_first(t, lits);
        lemma_chained_iff_nothing_public(sort_by_start(private_ranges(t, lits)), t.len() as int);
        if ends_ascend(sort_by_start(private_ranges(t, lits))) {
            lemma_ends_ascend_chained(t, lits);
        }
    }
}

/// Splits a transcript into public and private ranges.
///
/// The second list holds every verbatim occurrence of every literal of
/// `sub_seq` in `seq`: literal by literal, each by ascending offset,
/// overlapping and repeated matches included. The first list holds what a
/// sweep over those ranges, ordered by start, leaves between them; a gap
/// without bytes is left out.
///
/// A literal without bytes has no window to slide, so every literal must hold
/// at least one byte.
///
/// Besides the two lists themselves the contract states what follows for
/// them: the public ranges ascend, hold a byte each and do not touch; every
/// offset of the transcript lies in a public or in a private range; without
/// literals the whole transcript is one public range; and
/// where a literal is the whole transcript, nothing is public exactly if the
/// ordered private ranges are chained, which they are whenever their ends
/// ascend.
pub fn find_ranges(seq: &[u8], sub_seq: &[&[u8]]) -> (found: (
    Vec<Range<usize>>,
    Vec<Range<usize>>,
))
    requires
        literals_nonempty(literals_of(sub_seq@)),
    ensures
        spans_of(found.1@) == private_ranges(seq@, literals_of(sub_seq@)),
        spans_of(found.0@) == public_ranges_of(seq@, literals_of(sub_seq@)),
        separated(spans_of(found.0@), seq@.len() as int),
        forall|i: int|
            0 <= i < seq@.len() ==> covered_by(spans_of(found.0@), i) || covered_by(
                spans_of(found.1@),
                i,
            ),
        sub_seq@.len() == 0 ==> found.1@.len() == 0,
        sub_seq@.len() == 0 && seq@.len() > 0 ==> spans_of(found.0@) == seq![
            Span { start: 0, end: seq@.len() as int },
        ],
        literals_of(sub_seq@).contains(seq@) ==> (found.0@.len() == 0 <==> chained(
            sort_by_start(spans_of(found.1@)),
            seq@.len() as int,
        )),
        literals_of(sub_seq@).contains(seq@) && ends_ascend(sort_by_start(spans_of(found.1@)))
            ==> found.0@.len() == 0,
{
    let private = collect_private(seq, sub_seq);
    let sorted = sorted_by_start(&private);
    let public = sweep(&sorted, seq.len());
    proof {
        lemma_found(seq@, literals_of(sub_seq@));
        assert(spans_of(public@).len() == public@.len());
        assert(spans_of(private@).len() == private@.len());
        assert(literals_of(sub_seq@).len() == sub_seq@.len());
    }
    (public, private)
}

} // verus!
