//! Paths as text.

use vstd::prelude::*;

use crate::text::{cat2, cat3, chars};

verus! {

/// A directory and the name of something in it.
pub open spec fn joined_path(dir: Seq<char>, name: Seq<char>) -> Seq<char> {
    if dir.len() == 0 || dir.last() == '/' {
        dir + name
    } else {
        dir + "/"@ + name
    }
}

/// A directory and the name of something in it.
pub fn path_join(dir: &str, name: &str) -> (r: String)
    ensures
        r@ == joined_path(dir@, name@),
{
    let v = chars(dir);
    if v.len() == 0 || v[v.len() - 1] == '/' {
        cat2(dir, name)
    } else {
        cat3(dir, "/", name)
    }
}

} // verus!
