//! Small helpers on text.

use crate::text::{cut_at_first, occurs, str_split_once};
use vstd::prelude::*;

verus! {

/// Cuts `s` at the first place where `sep` stands in it: what stands before, `sep` itself,
/// and what stands after. `None` where `sep` stands nowhere in `s`.
pub fn split_str<'a>(s: &'a str, sep: &'a str) -> (cut: Option<(&'a str, &'a str, &'a str)>)
    ensures
        match cut {
            Some((before, found, after)) => found@ == sep@ && cut_at_first(
                s@,
                sep@,
                before@,
                after@,
            ),
            None => !occurs(s@, sep@),
        },
{
    match str_split_once(s, sep) {
        Some((before, after)) => Some((before, sep, after)),
        None => None,
    }
}

} // verus!
