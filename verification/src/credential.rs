//! The entry coordinates for the OS credential store.  The store
//! itself is an outside service and is driven from outside the
//! library; here stand the decisions: whether the platform needs an
//! explicit target, and what that target is.

use vstd::prelude::*;
use vstd::string::StringExecFns;
use crate::text::str_eq;

verus! {

/// The explicit credential target: `service/author`.
pub open spec fn spec_credential_target(service: Seq<char>, author: Seq<char>) -> Seq<char> {
    service + "/"@ + author
}

/// Build the explicit credential target for a service and author.
pub fn credential_target(service_name: &str, author_name: &str) -> (r: String)
    ensures
        r@ == spec_credential_target(service_name@, author_name@),
{
    service_name.to_owned().concat("/").concat(author_name)
}

/// Does this operating system need an entry with an explicit target
/// (only Windows does)?
pub fn use_target_entry(os: &str) -> (r: bool)
    ensures
        r == (os@ == "windows"@),
{
    str_eq(os, "windows")
}

} // verus!
