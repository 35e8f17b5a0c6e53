//! Errors of an adapter operation.
use crate::encode::push_str;
use vstd::prelude::*;

verus! {

/// Why an operation failed.
#[derive(Clone, Debug)]
pub enum Error {
    /// A required element, attribute or field is absent.
    Missing(String),
    /// An input the adapter does not recognise: a filter id, a listing, a link.
    Invalid(String),
    /// The remote service reported a failure.
    Upstream(String),
}

/// `prefix` followed by `detail` between backquotes.
pub open spec fn quoted(prefix: Seq<char>, detail: Seq<char>) -> Seq<char> {
    prefix + "`"@ + detail + "`"@
}

pub fn quote(prefix: &str, detail: &str) -> (r: String)
    ensures
        r@ == quoted(prefix@, detail@),
{
    let mut s = String::new();
    push_str(&mut s, prefix);
    push_str(&mut s, "`");
    push_str(&mut s, detail);
    push_str(&mut s, "`");
    s
}

/// A copy of a list of strings.
pub fn copy_strings(v: &Vec<String>) -> (r: Vec<String>)
    ensures
        r@ == v@,
{
    let mut r: Vec<String> = Vec::new();
    for i in 0..v.len()
        invariant
            r@ == v@.take(i as int),
    {
        r.push(v[i].clone());
        assert(r@ =~= v@.take(i + 1));
    }
    assert(v@.take(v@.len() as int) =~= v@);
    r
}

} // verus!
