//! Query strings: `key=value` pairs, each part percent-encoded, joined by `&`
//! in the order they were added.
use crate::encode::{push_str, push_uri_component, uri_component};
use vstd::prelude::*;

verus! {

/// The characters of each key and value.
pub open spec fn pair_views(ps: Seq<(String, String)>) -> Seq<(Seq<char>, Seq<char>)> {
    ps.map_values(|p: (String, String)| (p.0@, p.1@))
}

/// The query string of `ps`.
pub open spec fn query_text(ps: Seq<(Seq<char>, Seq<char>)>) -> Seq<char>
    decreases ps.len(),
{
    if ps.len() == 0 {
        Seq::empty()
    } else {
        let head = if ps.len() == 1 {
            Seq::empty()
        } else {
            query_text(ps.drop_last()) + "&"@
        };
        head + uri_component(ps.last().0) + "="@ + uri_component(ps.last().1)
    }
}

/// Appends the query string of `ps`.
pub fn push_query(out: &mut String, ps: &Vec<(String, String)>)
    ensures
        final(out)@ == old(out)@ + query_text(pair_views(ps@)),
{
    let ghost o = out@;
    assert(pair_views(ps@.take(0)) =~= Seq::<(Seq<char>, Seq<char>)>::empty());
    for i in 0..ps.len()
        invariant
            out@ == o + query_text(pair_views(ps@.take(i as int))),
    {
        let ghost t = pair_views(ps@.take(i + 1));
        assert(t.drop_last() =~= pair_views(ps@.take(i as int)));
        assert(t.last() == (ps@[i as int].0@, ps@[i as int].1@));
        if i > 0 {
            push_str(out, "&");
        } else {
            assert(pair_views(ps@.take(0)) =~= Seq::<(Seq<char>, Seq<char>)>::empty());
        }
        push_uri_component(out, ps[i].0.as_str());
        push_str(out, "=");
        push_uri_component(out, ps[i].1.as_str());
        assert(out@ =~= o + query_text(t));
    }
    assert(ps@.take(ps@.len() as int) =~= ps@);
}

/// Adds the pair `(key, value)`.
pub fn push_pair(ps: &mut Vec<(String, String)>, key: &str, value: &str)
    ensures
        pair_views(final(ps)@) == pair_views(old(ps)@).push((key@, value@)),
{
    ps.push((key.to_string(), value.to_string()));
    assert(pair_views(final(ps)@) =~= pair_views(old(ps)@).push((key@, value@)));
}

} // verus!
