//! Which files are candidates for re-encoding.
use vstd::prelude::*;
use crate::text::{ends_with, str_ends_with};

verus! {

/// A path is eligible when it ends in a source extension and does not carry
/// the output marker after one.
pub open spec fn eligible(p: Seq<char>) -> bool {
    (ends_with(p, ".mp4"@) || ends_with(p, ".mov"@))
        && !(ends_with(p, ".mp4_x265.mp4"@) || ends_with(p, ".mov_x265.mp4"@))
}

/// Returns whether the file at `path` should be re-encoded, judged by its name.
pub fn is_eligible(path: &str) -> (r: bool)
    ensures
        r == eligible(path@),
{
    let source = str_ends_with(path, ".mp4") || str_ends_with(path, ".mov");
    let marked = str_ends_with(path, ".mp4_x265.mp4") || str_ends_with(path, ".mov_x265.mp4");
    source && !marked
}

} // verus!
