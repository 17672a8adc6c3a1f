//! The robots head-meta directive for a page.

use vstd::prelude::*;

verus! {

/// The restrictive default directive.
pub const DEFAULT_HEAD_META: &'static str = "noindex, noarchive, noimageindex, nofollow";

/// The directive a page gets: only an article that is not marked
/// `noindex` may be indexed and followed.
pub open spec fn spec_generate_robots(noindex: bool, content_type: Seq<char>) -> Seq<char> {
    if content_type != "article"@ {
        "noindex, noarchive, noimageindex, nofollow"@
    } else if noindex {
        "noindex, noarchive, noimageindex, nofollow"@
    } else {
        "noarchive, noimageindex"@
    }
}

/// Pick the robots directive for a page of the given kind.
pub fn generate_robots(noindex: bool, content_type: &str) -> (r: &'static str)
    ensures
        r@ == spec_generate_robots(noindex, content_type@),
{
    if !crate::text::str_eq(content_type, "article") {
        return DEFAULT_HEAD_META;
    }
    if noindex {
        return DEFAULT_HEAD_META;
    }
    "noarchive, noimageindex"
}

} // verus!
