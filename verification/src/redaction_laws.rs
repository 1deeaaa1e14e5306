//! What holds of the private-data set that the redaction extractor builds.

use crate::redaction::{collect_private, is_censored_value, with_value};
use vstd::prelude::*;

verus! {

/// The set is append-only: what it held stays in front, in place.
pub proof fn lemma_collect_appends(
    set: Seq<Seq<u8>>,
    fields: Seq<(Seq<char>, Seq<u8>)>,
    topics: Seq<Seq<char>>,
)
    ensures
        set.len() <= collect_private(set, fields, topics).len(),
        collect_private(set, fields, topics).take(set.len() as int) == set,
    decreases fields.len(),
{
    if fields.len() == 0 {
        assert(set.take(set.len() as int) =~= set);
    } else {
        lemma_collect_appends(set, fields.drop_last(), topics);
        let before = collect_private(set, fields.drop_last(), topics);
        assert(with_value(before, fields.last().1).take(set.len() as int) =~= before.take(
            set.len() as int,
        ));
    }
}

/// Values are kept once: a set without repeats has none afterwards, however
/// often a value comes and under whatever names.
pub proof fn lemma_collect_distinct(
    set: Seq<Seq<u8>>,
    fields: Seq<(Seq<char>, Seq<u8>)>,
    topics: Seq<Seq<char>>,
)
    requires
        set.no_duplicates(),
    ensures
        collect_private(set, fields, topics).no_duplicates(),
    decreases fields.len(),
{
    if fields.len() > 0 {
        lemma_collect_distinct(set, fields.drop_last(), topics);
    }
}

/// Adding a value makes it a member and changes no other membership.
proof fn lemma_with_value_members(set: Seq<Seq<u8>>, value: Seq<u8>, other: Seq<u8>)
    ensures
        with_value(set, value).contains(other) <==> set.contains(other) || other == value,
{
    let after = with_value(set, value);
    if !set.contains(value) {
        assert(after[set.len() as int] == value);
        if set.contains(other) {
            let k = choose|k: int| 0 <= k < set.len() && set[k] == other;
            assert(after[k] == other);
        }
        if after.contains(other) && other != value {
            let k = choose|k: int| 0 <= k < after.len() && after[k] == other;
            assert(set[k] == other);
        }
    }
}

/// A value is censored by the fields exactly if it is censored by all but
/// the last of them or by the last.
proof fn lemma_censored_step(
    fields: Seq<(Seq<char>, Seq<u8>)>,
    topics: Seq<Seq<char>>,
    value: Seq<u8>,
)
    requires
        fields.len() > 0,
    ensures
        is_censored_value(fields, topics, value) <==> is_censored_value(
            fields.drop_last(),
            topics,
            value,
        ) || (topics.contains(fields.last().0) && fields.last().1 == value),
{
    let front = fields.drop_last();
    if is_censored_value(front, topics, value) {
        let i = choose|i: int|
            0 <= i < front.len() && topics.contains((#[trigger] front[i]).0) && front[i].1
                == value;
        assert(fields[i] == front[i]);
    }
    if topics.contains(fields.last().0) && fields.last().1 == value {
        assert(fields[fields.len() - 1] == fields.last());
    }
    if is_censored_value(fields, topics, value) {
        let i = choose|i: int|
            0 <= i < fields.len() && topics.contains((#[trigger] fields[i]).0) && fields[i].1
                == value;
        if i < front.len() {
            assert(front[i] == fields[i]);
        }
    }
}

/// The set holds what it held and the censored values, and nothing else: the
/// value of a field whose name is no topic joins only if a censored field
/// carries the same bytes.
pub proof fn lemma_collect_members(
    set: Seq<Seq<u8>>,
    fields: Seq<(Seq<char>, Seq<u8>)>,
    topics: Seq<Seq<char>>,
)
    ensures
        forall|value: Seq<u8>|
            #[trigger] collect_private(set, fields, topics).contains(value) <==> set.contains(
                value,
            ) || is_censored_value(fields, topics, value),
    decreases fields.len(),
{
    let after = collect_private(set, fields, topics);
    if fields.len() == 0 {
        assert forall|value: Seq<u8>| #[trigger] after.contains(value) <==> set.contains(value)
            || is_censored_value(fields, topics, value) by {}
    } else {
        let front = fields.drop_last();
        let before = collect_private(set, front, topics);
        lemma_collect_members(set, front, topics);
        assert forall|value: Seq<u8>| #[trigger] after.contains(value) <==> set.contains(value)
            || is_censored_value(fields, topics, value) by {
            lemma_censored_step(fields, topics, value);
            lemma_with_value_members(before, fields.last().1, value);
            assert(before.contains(value) <==> set.contains(value) || is_censored_value(
                front,
                topics,
                value,
            ));
        }
    }
}

/// Only the censor list decides: a field whose name is no topic can be taken
/// away without a change to the set, whatever its value.
pub proof fn lemma_uncensored_field_ignored(
    set: Seq<Seq<u8>>,
    fields: Seq<(Seq<char>, Seq<u8>)>,
    topics: Seq<Seq<char>>,
    i: int,
)
    requires
        0 <= i < fields.len(),
        !topics.contains(fields[i].0),
    ensures
        collect_private(set, fields.remove(i), topics) == collect_private(set, fields, topics),
    decreases fields.len(),
{
    if i == fields.len() - 1 {
        assert(fields.remove(i) =~= fields.drop_last());
    } else {
        lemma_uncensored_field_ignored(set, fields.drop_last(), topics, i);
        assert(fields.remove(i).drop_last() =~= fields.drop_last().remove(i));
        assert(fields.remove(i).last() == fields.last());
    }
}

/// Where no field has a censored name, the set stays as it was.
pub proof fn lemma_no_topic_no_change(
    set: Seq<Seq<u8>>,
    fields: Seq<(Seq<char>, Seq<u8>)>,
    topics: Seq<Seq<char>>,
)
    requires
        forall|i: int| 0 <= i < fields.len() ==> !topics.contains((#[trigger] fields[i]).0),
    ensures
        collect_private(set, fields, topics) == set,
    decreases fields.len(),
{
    if fields.len() > 0 {
        assert(fields[fields.len() - 1] == fields.last());
        assert forall|i: int| 0 <= i < fields.drop_last().len() implies !topics.contains(
            (#[trigger] fields.drop_last()[i]).0,
        ) by {
            assert(fields.drop_last()[i] == fields[i]);
        }
        lemma_no_topic_no_change(set, fields.drop_last(), topics);
    }
}

/// A value that the set holds already is not added again: a second field
/// with the bytes of an earlier censored one leaves the set as it was.
pub proof fn lemma_same_value_once(
    set: Seq<Seq<u8>>,
    fields: Seq<(Seq<char>, Seq<u8>)>,
    topics: Seq<Seq<char>>,
    again: (Seq<char>, Seq<u8>),
)
    requires
        is_censored_value(fields, topics, again.1),
    ensures
        collect_private(set, fields.push(again), topics) == collect_private(set, fields, topics),
{
    lemma_collect_members(set, fields, topics);
    assert(collect_private(set, fields, topics).contains(again.1));
    assert(fields.push(again).drop_last() =~= fields);
    assert(fields.push(again).last() == again);
}

} // verus!
