//! The comma-list codec for a field that may be absent. Absence passes
//! through unchanged in both directions; a present value goes through the
//! required codec.
use vstd::prelude::*;

use crate::separate_by_comma::{self, join_of, split_of, views};

verus! {

/// Encodes a field: absent stays absent, a present list is joined by `,`.
pub fn serialize(value: &Option<Vec<String>>) -> (r: Option<String>)
    ensures
        value.is_none() <==> r.is_none(),
        value.is_some() ==> r.unwrap()@ == join_of(views(value.unwrap()@)),
{
    match value {
        Some(xs) => Some(separate_by_comma::serialize(xs)),
        None => None,
    }
}

/// Decodes a field: absent stays absent, a present string is split on `,`.
pub fn deserialize(raw: Option<String>) -> (r: Option<Vec<String>>)
    ensures
        raw.is_none() <==> r.is_none(),
        raw.is_some() ==> views(r.unwrap()@) == split_of(raw.unwrap()@),
{
    match raw {
        Some(s) => Some(separate_by_comma::deserialize(s)),
        None => None,
    }
}

} // verus!
