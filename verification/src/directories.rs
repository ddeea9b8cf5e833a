//! Listing the configured directories.
use vstd::prelude::*;
use crate::text::copy_text;

verus! {

/// The line printed for a configured directory: `: <path>`.
pub fn directory_line(path: &str) -> (r: String)
    ensures
        r@ == ": "@ + path@,
{
    let mut r = copy_text(": ");
    r.append(path);
    r
}

} // verus!
