//! Small helpers shared by the record stores.

use vstd::prelude::*;

use crate::text;

verus! {

/// The sequence an optional value contributes to a listing: its
/// element, or nothing.
pub open spec fn opt_seq(o: Option<String>) -> Seq<String> {
    match o {
        Some(s) => seq![s],
        None => Seq::empty(),
    }
}

/// Whether the optional string holds exactly the given text.
pub fn opt_str_is(o: &Option<String>, pat: &str) -> (r: bool)
    ensures
        r == (o matches Some(s) && s@ == pat@),
{
    match o {
        Some(s) => text::str_eq(s.as_str(), pat),
        None => false,
    }
}

/// Whether the optional integer holds exactly the given value.
pub fn opt_i64_is(o: &Option<i64>, v: i64) -> (r: bool)
    ensures
        r == (*o == Some(v)),
{
    match o {
        Some(w) => *w == v,
        None => false,
    }
}

/// Clones an optional string, keeping the value.
pub fn clone_opt_string(o: &Option<String>) -> (r: Option<String>)
    ensures
        r == *o,
{
    match o {
        Some(s) => Some(s.clone()),
        None => None,
    }
}

} // verus!
