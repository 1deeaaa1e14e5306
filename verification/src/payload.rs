//! The payloads of a request: messages and tool descriptions, each handed in
//! as JSON text. A payload that is not JSON is an input error, reported with
//! the place of the first text that was refused.

use crate::json::{parse_json, parsed_json};
use vstd::prelude::*;

verus! {

/// A payload text that is not JSON.
#[derive(Clone, Copy, Debug, PartialEq, Eq, Structural)]
pub struct MalformedPayload {
    /// The place of the first text that was refused.
    pub index: usize,
}

/// Every text is JSON.
pub open spec fn all_json(texts: Seq<Seq<char>>) -> bool {
    forall|i: int| 0 <= i < texts.len() ==> parsed_json(#[trigger] texts[i]) is Some
}

/// The texts that a list of strings stands for.
pub open spec fn texts_of(texts: Seq<String>) -> Seq<Seq<char>> {
    texts.map_values(|t: String| t@)
}

/// Reads every text of a payload as JSON, in order.
///
/// Either every text is JSON, and the values come back one for each text and
/// in the order of the texts; or the place of the first text that is not JSON
/// comes back.
pub fn parse_payload(texts: &Vec<String>) -> (parsed: Result<
    Vec<serde_json::Value>,
    MalformedPayload,
>)
    ensures
        parsed is Ok <==> all_json(texts_of(texts@)),
        parsed matches Ok(values) ==> {
            &&& values@.len() == texts@.len()
            &&& forall|i: int|
                0 <= i < texts@.len() ==> parsed_json(texts@[i]@) == Some(#[trigger] values@[i])
        },
        parsed matches Err(error) ==> {
            &&& error.index < texts@.len()
            &&& parsed_json(texts@[error.index as int]@) is None
            &&& forall|i: int| 0 <= i < error.index ==> parsed_json(#[trigger] texts@[i]@) is Some
        },
{
    let mut values: Vec<serde_json::Value> = Vec::new();
    let mut i: usize = 0;
    while i < texts.len()
        invariant
            i <= texts@.len(),
            values@.len() == i,
            forall|k: int| 0 <= k < i ==> parsed_json(texts@[k]@) == Some(#[trigger] values@[k]),
            forall|k: int| 0 <= k < i ==> parsed_json(#[trigger] texts@[k]@) is Some,
        decreases texts@.len() - i,
    {
        match parse_json(texts[i].as_str()) {
            Ok(value) => {
                values.push(value);
            },
            Err(_) => {
                assert(texts_of(texts@)[i as int] == texts@[i as int]@);
                return Err(MalformedPayload { index: i });
            },
        }
        i += 1;
    }
    proof {
        assert forall|k: int| 0 <= k < texts_of(texts@).len() implies parsed_json(
            #[trigger] texts_of(texts@)[k],
        ) is Some by {
            assert(parsed_json(texts@[k]@) == Some(values@[k]));
        }
    }
    Ok(values)
}

} // verus!
