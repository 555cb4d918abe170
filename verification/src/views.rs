//! The mathematical contents of collections of viewed values.

use vstd::prelude::*;

verus! {

/// The contents of a sequence of values.
pub open spec fn all_views<T: DeepView>(s: Seq<T>) -> Seq<T::V> {
    Seq::new(s.len(), |i: int| s[i].deep_view())
}

/// The contents of a map to values.
pub open spec fn map_views<K, T: DeepView>(m: Map<K, T>) -> Map<K, T::V> {
    m.map_values(|v: T| v.deep_view())
}

pub fn push_viewed<T: DeepView>(v: &mut Vec<T>, x: T)
    ensures
        all_views(final(v)@) == all_views(old(v)@).push(x.deep_view()),
        final(v)@ == old(v)@.push(x),
{
    v.push(x);
    assert(all_views(v@) =~= all_views(old(v)@).push(x.deep_view()));
}

pub proof fn map_views_insert<K, T: DeepView>(m: Map<K, T>, k: K, v: T)
    ensures
        map_views(m.insert(k, v)) == map_views(m).insert(k, v.deep_view()),
{
    assert(map_views(m.insert(k, v)) =~= map_views(m).insert(k, v.deep_view()));
}

/// The contents of a result whose error is a message.
pub open spec fn result_view<T: DeepView>(r: Result<T, String>) -> Result<T::V, Seq<char>> {
    match r {
        Ok(v) => Ok(v.deep_view()),
        Err(e) => Err(e@),
    }
}

/// Whether a changed value is the expected one, or the refusal is.
pub open spec fn outcome_is<V>(expected: Result<V, Seq<char>>, after: V, r: Result<(), String>) -> bool {
    match expected {
        Ok(v) => r is Ok && after == v,
        Err(e) => r matches Err(x) && x@ == e,
    }
}

} // verus!
