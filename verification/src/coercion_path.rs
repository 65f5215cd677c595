//! The path of an input value inside the value being coerced: the keys and
//! indices from the root down, each as it is written in an error.
use vstd::prelude::*;

use crate::coercion_error::{clone_strings, strings_view};
use crate::text::{decimal_string, spec_decimal};

verus! {

/// The path extended by a key.
pub fn push_key(path: &Vec<String>, key: &str) -> (r: Vec<String>)
    ensures
        strings_view(r@) == strings_view(path@).push(key@),
{
    let mut r = clone_strings(path);
    let ghost old_r = r@;
    r.push(String::from_str(key));
    proof {
        assert(strings_view(r@) =~= strings_view(old_r).push(key@));
    }
    r
}

/// The path extended by an index, written as its decimal numeral.
pub fn push_index(path: &Vec<String>, index: usize) -> (r: Vec<String>)
    ensures
        strings_view(r@) == strings_view(path@).push(spec_decimal(index as nat)),
{
    let mut r = clone_strings(path);
    let ghost old_r = r@;
    r.push(decimal_string(index as u64));
    proof {
        assert(strings_view(r@) =~= strings_view(old_r).push(spec_decimal(index as nat)));
    }
    r
}

} // verus!
