//! What holds of the range model: which ranges are private, how the ordered
//! list relates to the list as found, and what the sweep leaves public.

use crate::ranges::{
    chained, covered_by, ends_ascend, gap, gaps_before, insert_by_start, is_occurrence,
    literals_nonempty, occurrences, occurrences_before, occurs_at, private_ranges, public_ranges,
    public_ranges_of, separated, sort_by_start, starting_at, starts_ascend, window_count, within,
    Span,
};
use vstd::prelude::*;
use vstd::seq_lib::{to_multiset_build, to_multiset_contains};

verus! {

/// The ranges listed for one literal are its occurrences, each once, by
/// ascending offset.
pub proof fn lemma_occurrences_before(t: Seq<u8>, lit: Seq<u8>, upto: int)
    ensures
        forall|s: Span|
            occurrences_before(t, lit, upto).contains(s) <==> 0 <= s.start < upto && occurs_at(
                t,
                lit,
                s.start,
            ) && s.end == s.start + lit.len(),
        forall|j: int, k: int|
            0 <= j < k < occurrences_before(t, lit, upto).len() ==> (#[trigger] occurrences_before(
                t,
                lit,
                upto,
            )[j]).start < (#[trigger] occurrences_before(t, lit, upto)[k]).start,
    decreases upto,
{
    let occ = occurrences_before(t, lit, upto);
    if upto > 0 {
        lemma_occurrences_before(t, lit, upto - 1);
        let prev = occurrences_before(t, lit, upto - 1);
        let last = Span { start: upto - 1, end: upto - 1 + lit.len() };
        if occurs_at(t, lit, upto - 1) {
            assert(occ == prev.push(last));
            assert forall|s: Span| occ.contains(s) <==> 0 <= s.start < upto && occurs_at(
                t,
                lit,
                s.start,
            ) && s.end == s.start + lit.len() by {
                if occ.contains(s) {
                    let k = choose|k: int| 0 <= k < occ.len() && occ[k] == s;
                    if k < prev.len() {
                        assert(prev[k] == s);
                        assert(prev.contains(s));
                    }
                }
                if 0 <= s.start < upto && occurs_at(t, lit, s.start) && s.end == s.start
                    + lit.len() {
                    if s.start == upto - 1 {
                        assert(occ[prev.len() as int] == s);
                    } else {
                        assert(prev.contains(s));
                        let k = choose|k: int| 0 <= k < prev.len() && prev[k] == s;
                        assert(occ[k] == s);
                    }
                }
            }
            assert forall|j: int, k: int| 0 <= j < k < occ.len() implies (#[trigger] occ[j]).start
                < (#[trigger] occ[k]).start by {
                if k == prev.len() {
                    assert(prev.contains(prev[j]));
                }
            }
        } else {
            assert(occ == prev);
        }
    }
}

/// A range is private exactly if it is an occurrence of one of the literals.
pub proof fn lemma_private_ranges(t: Seq<u8>, lits: Seq<Seq<u8>>)
    ensures
        forall|s: Span| private_ranges(t, lits).contains(s) <==> is_occurrence(t, lits, s),
    decreases lits.len(),
{
    let all = private_ranges(t, lits);
    if lits.len() == 0 {
        assert forall|s: Span| all.contains(s) <==> is_occurrence(t, lits, s) by {}
    } else {
        let front = lits.drop_last();
        let lit = lits.last();
        let before = private_ranges(t, front);
        let occ = occurrences(t, lit);
        lemma_private_ranges(t, front);
        lemma_occurrences_before(t, lit, window_count(t, lit));
        assert(all == before + occ);
        assert forall|s: Span| all.contains(s) <==> is_occurrence(t, lits, s) by {
            if all.contains(s) {
                let k = choose|k: int| 0 <= k < all.len() && all[k] == s;
                if k < before.len() {
                    assert(before[k] == s);
                    assert(before.contains(s));
                    assert(is_occurrence(t, front, s));
                    let l = choose|l: int|
                        0 <= l < front.len() && occurs_at(t, #[trigger] front[l], s.start)
                            && s.end == s.start + front[l].len();
                    assert(lits[l] == front[l]);
                } else {
                    assert(occ[k - before.len()] == s);
                    assert(occ.contains(s));
                    assert(lits[lits.len() - 1] == lit);
                }
            }
            if is_occurrence(t, lits, s) {
                let l = choose|l: int|
                    0 <= l < lits.len() && occurs_at(t, #[trigger] lits[l], s.start) && s.end
                        == s.start + lits[l].len();
                if l < front.len() {
                    assert(front[l] == lits[l]);
                    assert(is_occurrence(t, front, s));
                    assert(before.contains(s));
                    let k = choose|k: int| 0 <= k < before.len() && before[k] == s;
                    assert(all[k] == s);
                } else {
                    assert(lits[l] == lit);
                    assert(s.start < window_count(t, lit));
                    assert(occ.contains(s));
                    let k = choose|k: int| 0 <= k < occ.len() && occ[k] == s;
                    assert(all[before.len() + k] == s);
                }
            }
        }
    }
}

/// Private ranges lie inside the transcript, and none is empty where no
/// literal is.
pub proof fn lemma_private_within(t: Seq<u8>, lits: Seq<Seq<u8>>)
    ensures
        within(private_ranges(t, lits), t.len() as int),
        literals_nonempty(lits) ==> forall|k: int|
            0 <= k < private_ranges(t, lits).len() ==> (#[trigger] private_ranges(
                t,
                lits,
            )[k]).start < private_ranges(t, lits)[k].end,
{
    let all = private_ranges(t, lits);
    lemma_private_ranges(t, lits);
    assert forall|k: int| 0 <= k < all.len() implies 0 <= (#[trigger] all[k]).start <= all[k].end
        <= t.len() && (literals_nonempty(lits) ==> all[k].start < all[k].end) by {
        assert(all.contains(all[k]));
        assert(is_occurrence(t, lits, all[k]));
    }
}

/// Placing a range adds it to what was there and takes nothing away.
pub proof fn lemma_insert_permutes(s: Seq<Span>, r: Span)
    ensures
        insert_by_start(s, r).to_multiset() == s.to_multiset().insert(r),
        insert_by_start(s, r).len() == s.len() + 1,
    decreases s.len(),
{
    if s.len() == 0 || s.last().start <= r.start {
        to_multiset_build(s, r);
    } else {
        lemma_insert_permutes(s.drop_last(), r);
        to_multiset_build(insert_by_start(s.drop_last(), r), s.last());
        to_multiset_build(s.drop_last(), s.last());
        assert(s.drop_last().push(s.last()) =~= s);
        assert(s.drop_last().to_multiset().insert(r).insert(s.last()) =~= s.drop_last().to_multiset().insert(
            s.last(),
        ).insert(r));
    }
}

/// Ordering rearranges: each range is in the ordered list as often as in the
/// list it was made from.
pub proof fn lemma_sort_permutes(s: Seq<Span>)
    ensures
        sort_by_start(s).to_multiset() == s.to_multiset(),
        sort_by_start(s).len() == s.len(),
        forall|x: Span| sort_by_start(s).contains(x) <==> s.contains(x),
    decreases s.len(),
{
    if s.len() > 0 {
        lemma_sort_permutes(s.drop_last());
        lemma_insert_permutes(sort_by_start(s.drop_last()), s.last());
        to_multiset_build(s.drop_last(), s.last());
        assert(s.drop_last().push(s.last()) =~= s);
    } else {
        assert(s =~= Seq::<Span>::empty());
    }
    assert forall|x: Span| sort_by_start(s).contains(x) <==> s.contains(x) by {
        to_multiset_contains(sort_by_start(s), x);
        to_multiset_contains(s, x);
    }
}

/// Placing a range into a list whose starts ascend keeps them ascending.
pub proof fn lemma_insert_orders(s: Seq<Span>, r: Span)
    requires
        starts_ascend(s),
    ensures
        starts_ascend(insert_by_start(s, r)),
    decreases s.len(),
{
    let out = insert_by_start(s, r);
    if s.len() == 0 || s.last().start <= r.start {
        assert forall|i: int, j: int| 0 <= i <= j < out.len() implies (#[trigger] out[i]).start
            <= (#[trigger] out[j]).start by {
            if j == s.len() && i < s.len() {
                assert(s[i].start <= s[s.len() - 1].start);
            }
        }
    } else {
        let front = s.drop_last();
        assert forall|i: int, j: int| 0 <= i <= j < front.len() implies (#[trigger] front[i]).start
            <= (#[trigger] front[j]).start by {
            assert(s[i].start <= s[j].start);
        }
        lemma_insert_orders(front, r);
        lemma_insert_permutes(front, r);
        let mid = insert_by_start(front, r);
        assert forall|i: int, j: int| 0 <= i <= j < out.len() implies (#[trigger] out[i]).start
            <= (#[trigger] out[j]).start by {
            if j == mid.len() && i < mid.len() {
                to_multiset_contains(mid, mid[i]);
                to_multiset_contains(front, mid[i]);
                assert(mid.contains(mid[i]));
                if mid[i] != r {
                    assert(front.contains(mid[i]));
                    let k = choose|k: int| 0 <= k < front.len() && front[k] == mid[i];
                    assert(s[k].start <= s[s.len() - 1].start);
                }
            } else if j < mid.len() {
                assert(mid[i].start <= mid[j].start);
            }
        }
    }
}

/// The ordered list ascends by start.
pub proof fn lemma_sort_orders(s: Seq<Span>)
    ensures
        starts_ascend(sort_by_start(s)),
    decreases s.len(),
{
    if s.len() > 0 {
        lemma_sort_orders(s.drop_last());
        lemma_insert_orders(sort_by_start(s.drop_last()), s.last());
    }
}

/// Placing a range keeps, among the ranges that start at one offset, the
/// order they had, and puts the new range behind them.
pub proof fn lemma_insert_stable(s: Seq<Span>, r: Span, at: int)
    ensures
        starting_at(insert_by_start(s, r), at) == if r.start == at {
            starting_at(s, at).push(r)
        } else {
            starting_at(s, at)
        },
    decreases s.len(),
{
    reveal(Seq::filter);
    let same = |x: Span| x.start == at;
    if s.len() == 0 || s.last().start <= r.start {
        assert(s.push(r).drop_last() =~= s);
    } else {
        let front = s.drop_last();
        lemma_insert_stable(front, r, at);
        let mid = insert_by_start(front, r);
        assert(mid.push(s.last()).drop_last() =~= mid);
        assert(insert_by_start(s, r).filter(same) == if same(s.last()) {
            mid.filter(same).push(s.last())
        } else {
            mid.filter(same)
        });
    }
}

/// Ordering is stable: the ranges that start at one offset come in the order
/// in which they were found.
pub proof fn lemma_sort_stable(s: Seq<Span>, at: int)
    ensures
        starting_at(sort_by_start(s), at) == starting_at(s, at),
    decreases s.len(),
{
    reveal(Seq::filter);
    if s.len() > 0 {
        lemma_sort_stable(s.drop_last(), at);
        lemma_insert_stable(sort_by_start(s.drop_last()), s.last(), at);
    }
}

/// A gap that is not empty is among the gaps listed.
proof fn lemma_gap_listed(sorted: Seq<Span>, len: int, upto: int, j: int)
    requires
        0 <= j < upto,
        gap(sorted, len, j).start < gap(sorted, len, j).end,
    ensures
        gaps_before(sorted, len, upto).contains(gap(sorted, len, j)),
    decreases upto,
{
    let all = gaps_before(sorted, len, upto);
    if j == upto - 1 {
        assert(all[all.len() - 1] == gap(sorted, len, j));
    } else {
        lemma_gap_listed(sorted, len, upto - 1, j);
        let prev = gaps_before(sorted, len, upto - 1);
        let k = choose|k: int| 0 <= k < prev.len() && prev[k] == gap(sorted, len, j);
        assert(all[k] == gap(sorted, len, j));
    }
}

/// The gaps listed are gaps that are not empty.
proof fn lemma_gaps_are_gaps(sorted: Seq<Span>, len: int, upto: int)
    ensures
        forall|g: Span|
            gaps_before(sorted, len, upto).contains(g) ==> exists|j: int|
                0 <= j < upto && #[trigger] gap(sorted, len, j) == g && g.start < g.end,
    decreases upto,
{
    let all = gaps_before(sorted, len, upto);
    if upto > 0 {
        lemma_gaps_are_gaps(sorted, len, upto - 1);
        let prev = gaps_before(sorted, len, upto - 1);
        assert forall|g: Span| all.contains(g) implies exists|j: int|
            0 <= j < upto && #[trigger] gap(sorted, len, j) == g && g.start < g.end by {
            let k = choose|k: int| 0 <= k < all.len() && all[k] == g;
            if k < prev.len() {
                assert(prev[k] == g);
                assert(prev.contains(g));
                let j = choose|j: int|
                    0 <= j < upto - 1 && #[trigger] gap(sorted, len, j) == g && g.start < g.end;
                assert(gap(sorted, len, j) == g);
            } else {
                assert(gap(sorted, len, upto - 1) == g);
            }
        }
    }
}

/// Over ranges that ascend by start, each holding an offset, the gaps listed
/// are separated, and each ends no later than the next range starts.
proof fn lemma_gaps_separated(sorted: Seq<Span>, len: int, upto: int)
    requires
        starts_ascend(sorted),
        forall|k: int| 0 <= k < sorted.len() ==> 0 <= (#[trigger] sorted[k]).start < sorted[k].end <= len,
        0 <= upto <= sorted.len() + 1,
    ensures
        separated(gaps_before(sorted, len, upto), len),
        0 < upto <= sorted.len() ==> forall|i: int|
            0 <= i < gaps_before(sorted, len, upto).len() ==> (#[trigger] gaps_before(
                sorted,
                len,
                upto,
            )[i]).end <= sorted[upto - 1].start,
    decreases upto,
{
    let all = gaps_before(sorted, len, upto);
    if upto > 0 {
        lemma_gaps_separated(sorted, len, upto - 1);
        let prev = gaps_before(sorted, len, upto - 1);
        let g = gap(sorted, len, upto - 1);
        if upto - 1 > 0 {
            assert(sorted[upto - 2].start < sorted[upto - 2].end);
            if upto <= sorted.len() {
                assert(sorted[upto - 2].start <= sorted[upto - 1].start);
            }
        }
        if upto <= sorted.len() {
            assert(0 <= sorted[upto - 1].start <= len);
        }
        assert forall|k: int| 0 <= k < all.len() implies 0 <= (#[trigger] all[k]).start < all[k].end
            <= len by {
            if k < prev.len() {
                assert(all[k] == prev[k]);
            }
        }
        assert forall|i: int, j: int| 0 <= i < j < all.len() implies (#[trigger] all[i]).end < (
        #[trigger] all[j]).start by {
            assert(all[i] == prev[i]);
            if j < prev.len() {
                assert(all[j] == prev[j]);
            }
        }
        if upto <= sorted.len() {
            assert forall|i: int| 0 <= i < all.len() implies (#[trigger] all[i]).end <= sorted[upto
                - 1].start by {
                if i < prev.len() {
                    assert(all[i] == prev[i]);
                }
            }
        }
    }
}

/// What the sweep leaves public over ranges that ascend by start, each
/// holding an offset: ranges that hold an offset, lie inside the transcript,
/// ascend, and do not touch.
pub proof fn lemma_public_separated(sorted: Seq<Span>, len: int)
    requires
        starts_ascend(sorted),
        forall|k: int| 0 <= k < sorted.len() ==> 0 <= (#[trigger] sorted[k]).start < sorted[k].end <= len,
    ensures
        separated(public_ranges(sorted, len), len),
{
    lemma_gaps_separated(sorted, len, sorted.len() as int + 1);
}

/// The public ranges of a transcript hold an offset each, lie inside the
/// transcript, ascend, and do not touch.
pub proof fn lemma_public_ranges_separated(t: Seq<u8>, lits: Seq<Seq<u8>>)
    requires
        literals_nonempty(lits),
    ensures
        separated(public_ranges_of(t, lits), t.len() as int),
{
    let found = private_ranges(t, lits);
    let sorted = sort_by_start(found);
    lemma_private_within(t, lits);
    lemma_sort_permutes(found);
    lemma_sort_orders(found);
    assert forall|k: int| 0 <= k < sorted.len() implies 0 <= (#[trigger] sorted[k]).start
        < sorted[k].end <= t.len() by {
        assert(sorted.contains(sorted[k]));
        assert(found.contains(sorted[k]));
        let k2 = choose|k2: int| 0 <= k2 < found.len() && found[k2] == sorted[k];
        assert(0 <= found[k2].start < found[k2].end <= t.len());
    }
    lemma_public_separated(sorted, t.len() as int);
}

/// Where the ranges ascend by start and by end, the sweep discloses nothing
/// private: no offset lies both in a gap and in a range.
pub proof fn lemma_public_avoids_private(sorted: Seq<Span>, len: int)
    requires
        starts_ascend(sorted),
        ends_ascend(sorted),
    ensures
        forall|i: int| !(covered_by(public_ranges(sorted, len), i) && covered_by(sorted, i)),
{
    let public = public_ranges(sorted, len);
    lemma_gaps_are_gaps(sorted, len, sorted.len() as int + 1);
    assert forall|i: int| !(covered_by(public, i) && covered_by(sorted, i)) by {
        if covered_by(public, i) && covered_by(sorted, i) {
            let p = choose|p: int| 0 <= p < public.len() && (#[trigger] public[p]).contains(i);
            let k = choose|k: int| 0 <= k < sorted.len() && (#[trigger] sorted[k]).contains(i);
            assert(public.contains(public[p]));
            let j = choose|j: int|
                0 <= j < sorted.len() + 1 && #[trigger] gap(sorted, len, j) == public[p]
                    && public[p].start < public[p].end;
            if k < j {
                assert(sorted[k].end <= sorted[j - 1].end);
            } else {
                assert(sorted[j].start <= sorted[k].start);
            }
        }
    }
}

/// Where the ends of the ordered private ranges ascend, public and private
/// ranges tile the transcript: each offset lies in one family and not in the
/// other.
pub proof fn lemma_exact_tiling(t: Seq<u8>, lits: Seq<Seq<u8>>)
    requires
        ends_ascend(sort_by_start(private_ranges(t, lits))),
    ensures
        forall|i: int|
            0 <= i < t.len() ==> (covered_by(public_ranges_of(t, lits), i) <==> !covered_by(
                private_ranges(t, lits),
                i,
            )),
{
    let found = private_ranges(t, lits);
    let sorted = sort_by_start(found);
    lemma_coverage(t, lits);
    lemma_sort_permutes(found);
    lemma_sort_orders(found);
    lemma_public_avoids_private(sorted, t.len() as int);
    assert forall|i: int| 0 <= i < t.len() implies (covered_by(public_ranges_of(t, lits), i)
        <==> !covered_by(found, i)) by {
        if covered_by(found, i) {
            let k = choose|k: int| 0 <= k < found.len() && (#[trigger] found[k]).contains(i);
            assert(found.contains(found[k]));
            assert(sorted.contains(found[k]));
            let k2 = choose|k2: int| 0 <= k2 < sorted.len() && sorted[k2] == found[k];
            assert(sorted[k2].contains(i));
            assert(covered_by(sorted, i));
        }
    }
}

/// Literals of one length give ordered private ranges whose ends ascend.
pub proof fn lemma_equal_lengths_ends_ascend(t: Seq<u8>, lits: Seq<Seq<u8>>, width: nat)
    requires
        forall|l: int| 0 <= l < lits.len() ==> (#[trigger] lits[l]).len() == width,
    ensures
        ends_ascend(sort_by_start(private_ranges(t, lits))),
{
    let found = private_ranges(t, lits);
    let sorted = sort_by_start(found);
    lemma_private_ranges(t, lits);
    lemma_sort_permutes(found);
    lemma_sort_orders(found);
    assert forall|k: int| 0 <= k < sorted.len() implies (#[trigger] sorted[k]).end
        == sorted[k].start + width by {
        assert(sorted.contains(sorted[k]));
        assert(found.contains(sorted[k]));
        assert(is_occurrence(t, lits, sorted[k]));
    }
    assert forall|i: int, j: int| 0 <= i <= j < sorted.len() implies (#[trigger] sorted[i]).end
        <= (#[trigger] sorted[j]).end by {
        assert(sorted[i].start <= sorted[j].start);
    }
}

/// An offset at or behind the start of the `j`-th gap lies in a gap or in a
/// range from there on.
proof fn lemma_cover_from(sorted: Seq<Span>, len: int, i: int, j: int)
    requires
        0 <= j <= sorted.len(),
        0 <= i < len,
        gap(sorted, len, j).start <= i,
    ensures
        covered_by(public_ranges(sorted, len), i) || covered_by(sorted, i),
    decreases sorted.len() - j,
{
    let g = gap(sorted, len, j);
    if i < g.end {
        lemma_gap_listed(sorted, len, sorted.len() as int + 1, j);
        let public = public_ranges(sorted, len);
        let k = choose|k: int| 0 <= k < public.len() && public[k] == g;
        assert(public[k].contains(i));
    } else {
        assert(j < sorted.len());
        if i < sorted[j].end {
            assert(sorted[j].contains(i));
        } else {
            lemma_cover_from(sorted, len, i, j + 1);
        }
    }
}

/// The sweep loses nothing: every offset of the transcript lies in one of
/// the ranges swept over or in one of the gaps found. This holds in whatever
/// order the ranges are.
pub proof fn lemma_sweep_covers(sorted: Seq<Span>, len: int)
    ensures
        forall|i: int|
            0 <= i < len ==> covered_by(public_ranges(sorted, len), i) || covered_by(sorted, i),
{
    assert forall|i: int| 0 <= i < len implies covered_by(public_ranges(sorted, len), i)
        || covered_by(sorted, i) by {
        lemma_cover_from(sorted, len, i, 0);
    }
}

/// Every offset of a transcript lies in a public range or in a private one.
pub proof fn lemma_coverage(t: Seq<u8>, lits: Seq<Seq<u8>>)
    ensures
        forall|i: int|
            0 <= i < t.len() ==> covered_by(public_ranges_of(t, lits), i) || covered_by(
                private_ranges(t, lits),
                i,
            ),
{
    let found = private_ranges(t, lits);
    let sorted = sort_by_start(found);
    lemma_sweep_covers(sorted, t.len() as int);
    lemma_sort_permutes(found);
    assert forall|i: int| 0 <= i < t.len() implies covered_by(public_ranges_of(t, lits), i)
        || covered_by(found, i) by {
        if covered_by(sorted, i) {
            let k = choose|k: int| 0 <= k < sorted.len() && (#[trigger] sorted[k]).contains(i);
            assert(sorted.contains(sorted[k]));
            assert(found.contains(sorted[k]));
            let k2 = choose|k2: int| 0 <= k2 < found.len() && found[k2] == sorted[k];
            assert(found[k2].contains(i));
        }
    }
}

/// Without literals nothing is private, and a transcript that holds a byte
/// is one public range.
pub proof fn lemma_no_literals(t: Seq<u8>)
    ensures
        private_ranges(t, Seq::empty()) == Seq::<Span>::empty(),
        t.len() > 0 ==> public_ranges_of(t, Seq::empty()) == seq![
            Span { start: 0, end: t.len() as int },
        ],
        t.len() == 0 ==> public_ranges_of(t, Seq::empty()) == Seq::<Span>::empty(),
{
    let none = Seq::<Span>::empty();
    assert(sort_by_start(none) == none);
    assert(gaps_before(none, t.len() as int, 0) == none);
    if t.len() > 0 {
        assert(gaps_before(none, t.len() as int, 1) == none.push(gap(none, t.len() as int, 0)));
        assert(none.push(gap(none, t.len() as int, 0)) =~= seq![
            Span { start: 0, end: t.len() as int },
        ]);
    }
}

/// Nothing is listed exactly if every gap is empty.
proof fn lemma_no_gaps(sorted: Seq<Span>, len: int, upto: int)
    ensures
        gaps_before(sorted, len, upto).len() == 0 <==> forall|j: int|
            0 <= j < upto ==> (#[trigger] gap(sorted, len, j)).start >= gap(sorted, len, j).end,
    decreases upto,
{
    if upto > 0 {
        lemma_no_gaps(sorted, len, upto - 1);
        if gaps_before(sorted, len, upto).len() == 0 {
            assert(gap(sorted, len, upto - 1).start >= gap(sorted, len, upto - 1).end);
        }
    }
}

/// Where the first range starts at offset 0, the sweep leaves nothing public
/// exactly if the ranges are chained.
pub proof fn lemma_chained_iff_nothing_public(sorted: Seq<Span>, len: int)
    requires
        sorted.len() > 0,
        sorted[0].start <= 0,
    ensures
        public_ranges(sorted, len).len() == 0 <==> chained(sorted, len),
{
    let m = sorted.len() as int;
    lemma_no_gaps(sorted, len, m + 1);
    if public_ranges(sorted, len).len() == 0 {
        assert forall|j: int| 0 < j < m implies (#[trigger] sorted[j]).start <= sorted[j - 1].end by {
            assert(gap(sorted, len, j).start >= gap(sorted, len, j).end);
        }
        assert(gap(sorted, len, m).start >= gap(sorted, len, m).end);
    }
    if chained(sorted, len) {
        assert forall|j: int| 0 <= j < m + 1 implies (#[trigger] gap(sorted, len, j)).start >= gap(
            sorted,
            len,
            j,
        ).end by {
            if 0 < j < m {
                assert(sorted[j].start <= sorted[j - 1].end);
            }
        }
    }
}

/// Where a literal is the whole transcript, the ordered private ranges begin
/// with a range that starts at offset 0, and the range of the whole
/// transcript is among them.
pub proof fn lemma_whole_transcript_first(t: Seq<u8>, lits: Seq<Seq<u8>>)
    requires
        lits.contains(t),
        literals_nonempty(lits),
    ensures
        sort_by_start(private_ranges(t, lits)).len() > 0,
        sort_by_start(private_ranges(t, lits))[0].start == 0,
        sort_by_start(private_ranges(t, lits)).contains(Span { start: 0, end: t.len() as int }),
{
    let found = private_ranges(t, lits);
    let sorted = sort_by_start(found);
    let whole = Span { start: 0, end: t.len() as int };
    let l = choose|l: int| 0 <= l < lits.len() && lits[l] == t;
    assert(t.subrange(0, t.len() as int) =~= t);
    assert(occurs_at(t, lits[l], 0));
    assert(is_occurrence(t, lits, whole));
    lemma_private_ranges(t, lits);
    lemma_sort_permutes(found);
    lemma_sort_orders(found);
    lemma_private_within(t, lits);
    assert(sorted.contains(whole));
    let p = choose|p: int| 0 <= p < sorted.len() && sorted[p] == whole;
    assert(sorted[0].start <= sorted[p].start);
    assert(sorted.contains(sorted[0]));
    assert(found.contains(sorted[0]));
    let k = choose|k: int| 0 <= k < found.len() && found[k] == sorted[0];
    assert(0 <= found[k].start);
}

/// Where a literal is the whole transcript and the ends of the ordered
/// private ranges ascend, the ranges are chained.
pub proof fn lemma_ends_ascend_chained(t: Seq<u8>, lits: Seq<Seq<u8>>)
    requires
        lits.contains(t),
        literals_nonempty(lits),
        ends_ascend(sort_by_start(private_ranges(t, lits))),
    ensures
        chained(sort_by_start(private_ranges(t, lits)), t.len() as int),
{
    let found = private_ranges(t, lits);
    let sorted = sort_by_start(found);
    let len = t.len() as int;
    let whole = Span { start: 0, end: len };
    lemma_whole_transcript_first(t, lits);
    lemma_sort_permutes(found);
    lemma_sort_orders(found);
    lemma_private_within(t, lits);
    let p = choose|p: int| 0 <= p < sorted.len() && sorted[p] == whole;
    assert forall|k: int| 0 <= k < sorted.len() implies 0 <= (#[trigger] sorted[k]).start
        <= sorted[k].end <= len by {
        assert(sorted.contains(sorted[k]));
        assert(found.contains(sorted[k]));
        let k2 = choose|k2: int| 0 <= k2 < found.len() && found[k2] == sorted[k];
        assert(0 <= found[k2].start <= found[k2].end <= len);
    }
    assert forall|j: int| 0 < j < sorted.len() implies (#[trigger] sorted[j]).start <= sorted[j
        - 1].end by {
        if j <= p {
            assert(sorted[j].start <= sorted[p].start);
            assert(0 <= sorted[j - 1].start <= sorted[j - 1].end);
        } else {
            assert(sorted[p].end <= sorted[j - 1].end);
        }
    }
    assert(sorted[p].end <= sorted[sorted.len() - 1].end);
}

} // verus!
