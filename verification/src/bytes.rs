//! Byte-string helpers shared by the range finder and the redaction extractor.

use vstd::prelude::*;
use vstd::utf8::encode_utf8_decode_utf8;

verus! {

/// The byte strings that a list of owned values stands for.
pub open spec fn byte_strings(values: Seq<Vec<u8>>) -> Seq<Seq<u8>> {
    values.map_values(|v: Vec<u8>| v@)
}

/// The names that a list of borrowed strings stands for.
pub open spec fn names_of(names: Seq<&str>) -> Seq<Seq<char>> {
    names.map_values(|n: &str| n@)
}

/// Byte-exact equality of two slices.
pub fn bytes_eq(a: &[u8], b: &[u8]) -> (same: bool)
    ensures
        same == (a@ == b@),
{
    if a.len() != b.len() {
        return false;
    }
    let mut i: usize = 0;
    while i < a.len()
        invariant
            a@.len() == b@.len(),
            i <= a@.len(),
            a@.subrange(0, i as int) == b@.subrange(0, i as int),
        decreases a@.len() - i,
    {
        if a[i] != b[i] {
            return false;
        }
        proof {
            assert(a@.subrange(0, i + 1) == a@.subrange(0, i as int).push(a@[i as int]));
            assert(b@.subrange(0, i + 1) == b@.subrange(0, i as int).push(b@[i as int]));
        }
        i += 1;
    }
    proof {
        assert(a@ == a@.subrange(0, a@.len() as int));
        assert(b@ == b@.subrange(0, b@.len() as int));
    }
    true
}

/// Exact equality of two strings.
pub fn str_eq(a: &str, b: &str) -> (same: bool)
    ensures
        same == (a@ == b@),
{
    let same = bytes_eq(a.as_bytes(), b.as_bytes());
    proof {
        if same {
            encode_utf8_decode_utf8(a@);
            encode_utf8_decode_utf8(b@);
        }
    }
    same
}

/// Whether `value` is one of `values`, byte for byte.
pub fn contains_bytes(values: &Vec<Vec<u8>>, value: &[u8]) -> (found: bool)
    ensures
        found == byte_strings(values@).contains(value@),
{
    let mut i: usize = 0;
    while i < values.len()
        invariant
            i <= values@.len(),
            forall|k: int| 0 <= k < i ==> byte_strings(values@)[k] != value@,
        decreases values@.len() - i,
    {
        if bytes_eq(values[i].as_slice(), value) {
            assert(byte_strings(values@)[i as int] == value@);
            return true;
        }
        i += 1;
    }
    false
}

/// Whether `name` is one of `names`, character for character.
pub fn contains_name(names: &[&str], name: &str) -> (found: bool)
    ensures
        found == names_of(names@).contains(name@),
{
    let mut i: usize = 0;
    while i < names.len()
        invariant
            i <= names@.len(),
            forall|k: int| 0 <= k < i ==> names_of(names@)[k] != name@,
        decreases names@.len() - i,
    {
        if str_eq(names[i], name) {
            assert(names_of(names@)[i as int] == name@);
            return true;
        }
        i += 1;
    }
    false
}

} // verus!
