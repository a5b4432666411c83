//! Small helpers on strings.

use vstd::prelude::*;

verus! {

/// Whether two strings hold the same text.
pub fn same_text(a: &str, b: &str) -> (r: bool)
    ensures
        r == (a@ == b@),
{
    let left = a.to_owned();
    let right = b.to_owned();
    left == right
}

/// The text of `root` followed by the text of `relative`.
pub fn join_path(root: &str, relative: &str) -> (r: String)
    ensures
        r@ == root@ + relative@,
{
    let mut path = root.to_owned();
    path.append(relative);
    path
}

} // verus!
