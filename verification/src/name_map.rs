//! Maps from names to values.

use vstd::prelude::*;

use crate::text::same_text;

verus! {

/// A map from names to values; of two entries of one name the later counts.
#[derive(Debug)]
pub struct NameMap<T> {
    entries: Vec<(String, T)>,
}

pub open spec fn entries_map<T: DeepView>(entries: Seq<(String, T)>) -> Map<Seq<char>, T::V>
    decreases entries.len(),
{
    if entries.len() == 0 {
        Map::empty()
    } else {
        entries_map(entries.drop_last()).insert(entries.last().0@, entries.last().1.deep_view())
    }
}

impl<T: DeepView> DeepView for NameMap<T> {
    type V = Map<Seq<char>, T::V>;

    closed spec fn deep_view(&self) -> Map<Seq<char>, T::V> {
        entries_map(self.entries@)
    }
}

impl<T: DeepView> NameMap<T> {
    pub fn new() -> (r: Self)
        ensures
            r.deep_view() == Map::<Seq<char>, T::V>::empty(),
    {
        NameMap { entries: Vec::new() }
    }

    pub fn insert(&mut self, name: String, value: T)
        ensures
            final(self).deep_view() == old(self).deep_view().insert(name@, value.deep_view()),
    {
        let ghost before = self.entries@;
        self.entries.push((name, value));
        assert(self.entries@.drop_last() =~= before);
    }

    /// The value of a name.
    pub fn get(&self, name: &str) -> (r: Option<&T>)
        ensures
            match r {
                Some(v) => self.deep_view().contains_key(name@) && self.deep_view()[name@]
                    == v.deep_view(),
                None => !self.deep_view().contains_key(name@),
            },
    {
        let mut n: usize = self.entries.len();
        assert(self.entries@.take(n as int) =~= self.entries@);
        while n > 0
            invariant
                n <= self.entries@.len(),
                entries_map(self.entries@).contains_key(name@) == entries_map(
                    self.entries@.take(n as int),
                ).contains_key(name@),
                entries_map(self.entries@).contains_key(name@) ==> entries_map(
                    self.entries@,
                )[name@] == entries_map(self.entries@.take(n as int))[name@],
            decreases n,
        {
            assert(self.entries@.take(n as int).drop_last() =~= self.entries@.take(n - 1));
            assert(self.entries@.take(n as int).last() == self.entries@[n - 1]);
            if same_text(self.entries[n - 1].0.as_str(), name) {
                return Some(&self.entries[n - 1].1);
            }
            n -= 1;
        }
        None
    }
}

} // verus!
