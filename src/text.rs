use vstd::prelude::*;
use vstd::string::StringExecFns;

verus! {

/// The first string followed by the second, as a new string.
pub(crate) fn join(a: &str, b: &str) -> (r: String)
    ensures
        r@ == a@ + b@,
{
    let mut r = a.to_owned();
    r.append(b);
    r
}

} // verus!
