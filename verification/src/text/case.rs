//! Lower case in the full Unicode sense.

use vstd::prelude::*;

verus! {

/// The lower case form of a text, by Unicode's mapping.
pub uninterp spec fn lowercase(s: Seq<char>) -> Seq<char>;

/// `str::to_lowercase` maps every character by Unicode's lower case mapping;
/// the result depends on the text alone.
pub assume_specification[ str::to_lowercase ](s: &str) -> (r: String)
    ensures
        r@ == lowercase(s@),
;

} // verus!
