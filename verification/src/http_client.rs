//! URL assembly for the HTTP client.  The requests themselves are I/O
//! and are driven from outside the library.

use vstd::prelude::*;
use vstd::string::StringExecFns;

verus! {

/// The string without its trailing slashes.
pub open spec fn spec_trim_end_slashes(s: Seq<char>) -> Seq<char>
    decreases s.len(),
{
    if s.len() > 0 && s[s.len() - 1] == '/' {
        spec_trim_end_slashes(s.drop_last())
    } else {
        s
    }
}

/// The string without its leading slashes.
pub open spec fn spec_trim_start_slashes(s: Seq<char>) -> Seq<char>
    decreases s.len(),
{
    if s.len() > 0 && s[0] == '/' {
        spec_trim_start_slashes(s.drop_first())
    } else {
        s
    }
}

/// A base URL and a path joined with exactly one slash between them.
pub open spec fn spec_join_url(base: Seq<char>, path: Seq<char>) -> Seq<char> {
    spec_trim_end_slashes(base) + "/"@ + spec_trim_start_slashes(path)
}

/// Join a base URL and a path with exactly one slash between them.
pub fn join_url(base_url: &str, path: &str) -> (r: String)
    ensures
        r@ == spec_join_url(base_url@, path@),
{
    let n = base_url.unicode_len();
    let mut end: usize = n;
    proof {
        assert(base_url@.take(n as int) =~= base_url@);
    }
    while end > 0 && base_url.get_char(end - 1) == '/'
        invariant
            end <= n,
            n == base_url@.len(),
            spec_trim_end_slashes(base_url@) == spec_trim_end_slashes(base_url@.take(end as int)),
        decreases end,
    {
        proof {
            assert(base_url@.take(end as int).drop_last() =~= base_url@.take(end - 1));
        }
        end -= 1;
    }
    let m = path.unicode_len();
    let mut start: usize = 0;
    proof {
        assert(path@.skip(0) =~= path@);
    }
    while start < m && path.get_char(start) == '/'
        invariant
            start <= m,
            m == path@.len(),
            spec_trim_start_slashes(path@) == spec_trim_start_slashes(path@.skip(start as int)),
        decreases m - start,
    {
        proof {
            assert(path@.skip(start as int).drop_first() =~= path@.skip(start + 1));
        }
        start += 1;
    }
    let trimmed_base = base_url.substring_char(0, end);
    let trimmed_path = path.substring_char(start, m);
    proof {
        assert(trimmed_base@ =~= base_url@.take(end as int));
        assert(trimmed_path@ =~= path@.skip(start as int));
        assert(spec_trim_end_slashes(base_url@.take(end as int)) == base_url@.take(end as int));
        assert(spec_trim_start_slashes(path@.skip(start as int)) == path@.skip(start as int));
    }
    trimmed_base.to_owned().concat("/").concat(trimmed_path)
}

} // verus!
