//! The API key: one line in a file of its own, surrounding whitespace
//! ignored.

use vstd::prelude::*;

use crate::text::{chars_of, trim, trim_bounds};

verus! {

/// The key held in a token file's `contents`: the text with surrounding
/// whitespace removed, or `None` when nothing is left.
pub fn parse_token(contents: &str) -> (r: Option<String>)
    ensures
        r is None <==> trim(contents@).len() == 0,
        r matches Some(t) ==> t@ == trim(contents@),
{
    let v = chars_of(contents);
    let (a, b) = trim_bounds(&v, 0, v.len());
    proof {
        assert(v@.subrange(0, v@.len() as int) =~= v@);
    }
    if a == b {
        None
    } else {
        Some(String::from_str(contents.substring_char(a, b)))
    }
}

} // verus!
