//! The redaction extractor: which header values join the private-data set.
//!
//! A field joins if its name is one of the censored topics, compared
//! character for character, and its value is not in the set yet, compared
//! byte for byte. The set only grows, and keeps the order in which the
//! values came.

use crate::bytes::{byte_strings, contains_bytes, contains_name, names_of};
use crate::headers::{fields_of, header_fields, read_header_fields};
use crate::redaction_laws::{
    lemma_collect_appends, lemma_collect_distinct, lemma_collect_members,
};
use hyper::header::HeaderValue;
use hyper::HeaderMap;
use vstd::prelude::*;

verus! {

/// The set with `value` added behind, unless it is there already.
pub open spec fn with_value(set: Seq<Seq<u8>>, value: Seq<u8>) -> Seq<Seq<u8>> {
    if set.contains(value) {
        set
    } else {
        set.push(value)
    }
}

/// The private-data set after the fields were looked through in order,
/// starting from `set`.
pub open spec fn collect_private(
    set: Seq<Seq<u8>>,
    fields: Seq<(Seq<char>, Seq<u8>)>,
    topics: Seq<Seq<char>>,
) -> Seq<Seq<u8>>
    decreases fields.len(),
{
    if fields.len() == 0 {
        set
    } else if topics.contains(fields.last().0) {
        with_value(collect_private(set, fields.drop_last(), topics), fields.last().1)
    } else {
        collect_private(set, fields.drop_last(), topics)
    }
}

/// `value` is the value of a field whose name is censored.
pub open spec fn is_censored_value(
    fields: Seq<(Seq<char>, Seq<u8>)>,
    topics: Seq<Seq<char>>,
    value: Seq<u8>,
) -> bool {
    exists|i: int|
        0 <= i < fields.len() && topics.contains((#[trigger] fields[i]).0) && fields[i].1 == value
}

/// Adds to the private-data set the values of the fields whose name is one
/// of the censored topics, in the order of the fields. A value that the set
/// holds already is not added again, under whatever name it comes.
///
/// The contract gives the new set exactly, and states what follows: the old
/// set is kept in front; a set without repeats stays so; and the set holds
/// what it held, the censored values, and nothing else.
pub fn collect_private_values(
    private_data: &mut Vec<Vec<u8>>,
    fields: &Vec<(String, Vec<u8>)>,
    topics_to_censor: &[&str],
)
    ensures
        byte_strings(final(private_data)@) == collect_private(
            byte_strings(old(private_data)@),
            fields_of(fields@),
            names_of(topics_to_censor@),
        ),
        old(private_data)@.len() <= final(private_data)@.len(),
        byte_strings(final(private_data)@).take(old(private_data)@.len() as int) == byte_strings(
            old(private_data)@,
        ),
        byte_strings(old(private_data)@).no_duplicates() ==> byte_strings(
            final(private_data)@,
        ).no_duplicates(),
        forall|value: Seq<u8>|
            byte_strings(final(private_data)@).contains(value) <==> byte_strings(
                old(private_data)@,
            ).contains(value) || is_censored_value(
                fields_of(fields@),
                names_of(topics_to_censor@),
                value,
            ),
{
    let ghost start = byte_strings(private_data@);
    let ghost all = fields_of(fields@);
    let ghost topics = names_of(topics_to_censor@);
    let mut i: usize = 0;
    assert(all.take(0) =~= Seq::<(Seq<char>, Seq<u8>)>::empty());
    while i < fields.len()
        invariant
            i <= fields@.len(),
            all == fields_of(fields@),
            topics == names_of(topics_to_censor@),
            byte_strings(private_data@) == collect_private(start, all.take(i as int), topics),
        decreases fields@.len() - i,
    {
        proof {
            assert(all.take(i + 1).drop_last() =~= all.take(i as int));
            assert(all.take(i + 1).last() == (fields@[i as int].0@, fields@[i as int].1@));
        }
        if contains_name(topics_to_censor, fields[i].0.as_str()) {
            if !contains_bytes(private_data, fields[i].1.as_slice()) {
                let ghost before = private_data@;
                let mut value: Vec<u8> = Vec::new();
                value.extend_from_slice(fields[i].1.as_slice());
                assert(value@ =~= fields@[i as int].1@);
                private_data.push(value);
                assert(byte_strings(private_data@) =~= byte_strings(before).push(
                    fields@[i as int].1@,
                ));
            }
        }
        i += 1;
    }
    proof {
        assert(all.take(fields@.len() as int) =~= all);
        lemma_collect_appends(start, all, topics);
        if start.no_duplicates() {
            lemma_collect_distinct(start, all, topics);
        }
        lemma_collect_members(start, all, topics);
        assert(byte_strings(private_data@).len() == private_data@.len());
        assert(start.len() == old(private_data)@.len());
    }
}

/// Adds to the private-data set the values of the headers whose name is one
/// of the censored topics, each value once.
///
/// This reads the fields out of the map and hands them to
/// `collect_private_values`; the contract is that function's, over the
/// fields of the map.
pub fn extract_private_data(
    recv_private_data: &mut Vec<Vec<u8>>,
    headers: &HeaderMap<HeaderValue>,
    topics_to_censor: &[&str],
)
    ensures
        byte_strings(final(recv_private_data)@) == collect_private(
            byte_strings(old(recv_private_data)@),
            header_fields(*headers),
            names_of(topics_to_censor@),
        ),
        old(recv_private_data)@.len() <= final(recv_private_data)@.len(),
        byte_strings(final(recv_private_data)@).take(old(recv_private_data)@.len() as int)
            == byte_strings(old(recv_private_data)@),
        byte_strings(old(recv_private_data)@).no_duplicates() ==> byte_strings(
            final(recv_private_data)@,
        ).no_duplicates(),
        forall|value: Seq<u8>|
            byte_strings(final(recv_private_data)@).contains(value) <==> byte_strings(
                old(recv_private_data)@,
            ).contains(value) || is_censored_value(
                header_fields(*headers),
                names_of(topics_to_censor@),
                value,
            ),
{
    let fields = read_header_fields(headers);
    collect_private_values(recv_private_data, &fields, topics_to_censor);
}

} // verus!
