//! Rules the target registry applies to what it shows.

use vstd::prelude::*;

verus! {

/// Fields of a stored target that are never listed back to clients.
pub open spec fn is_secret(name: Seq<char>) -> bool {
    name == "clientSecret"@ || name == "password"@ || name == "token"@
}

/// Whether a stored field holds a secret that listings leave out.
pub fn is_secret_field(name: &str) -> (r: bool)
    ensures
        r == is_secret(name@),
{
    let n = name.to_owned();
    n == "clientSecret".to_owned() || n == "password".to_owned() || n == "token".to_owned()
}

} // verus!
