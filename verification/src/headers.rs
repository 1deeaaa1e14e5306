//! What the library takes on trust about `hyper`'s header maps.
//!
//! Nothing in this file is proved. Each item says what it claims of the code
//! it stands for.

use hyper::header::HeaderValue;
use hyper::HeaderMap;
use vstd::prelude::*;

verus! {

/// `hyper::HeaderMap` (a re-export of `http::HeaderMap`), carried as an
/// opaque value.
#[verifier::external_type_specification]
#[verifier::external_body]
#[verifier::reject_recursive_types(T)]
pub struct ExHeaderMap<T>(HeaderMap<T>);

/// `hyper::header::HeaderValue`, carried as an opaque value.
#[verifier::external_type_specification]
#[verifier::external_body]
pub struct ExHeaderValue(HeaderValue);

/// The fields of a header map, name and value bytes, in the order in which
/// `HeaderMap::iter` yields them: a name with several values is listed once
/// for each. The map walks its entries in a fixed order that depends on
/// nothing but the map.
pub uninterp spec fn header_fields(headers: HeaderMap<HeaderValue>) -> Seq<(Seq<char>, Seq<u8>)>;

/// The fields that a list of name and value pairs stands for.
pub open spec fn fields_of(fields: Seq<(String, Vec<u8>)>) -> Seq<(Seq<char>, Seq<u8>)> {
    fields.map_values(|f: (String, Vec<u8>)| (f.0@, f.1@))
}

/// Walks the map with `HeaderMap::iter` and copies each field out, the name
/// by `HeaderName::as_str` and the value by `HeaderValue::as_bytes`. The
/// claim is that the copies are the map's fields, in the map's order.
#[verifier::external_body]
pub(crate) fn read_header_fields(headers: &HeaderMap<HeaderValue>) -> (fields: Vec<
    (String, Vec<u8>),
>)
    ensures
        fields_of(fields@) == header_fields(*headers),
{
    headers.iter().map(|(name, value)| (name.as_str().to_owned(), value.as_bytes().to_vec())).collect()
}

} // verus!
