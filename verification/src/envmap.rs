//! Maps from strings to strings: environment variables for a build, and the
//! process environment that the configuration is derived from.
use vstd::prelude::*;
use crate::assoc::{assoc_map, has_key, key_index, keys_distinct, lemma_assoc_at,
    lemma_assoc_empty, lemma_assoc_push, lemma_assoc_update};
use crate::state::pair_views;
use crate::text::{chars_eq, chars_of};

verus! {

/// The map that a list of pairs gives when each pair is inserted in turn:
/// for a repeated name, the last value.
pub open spec fn pairs_map(s: Seq<(Seq<char>, Seq<char>)>) -> Map<Seq<char>, Seq<char>>
    decreases s.len(),
{
    if s.len() == 0 {
        Map::empty()
    } else {
        pairs_map(s.drop_last()).insert(s.last().0, s.last().1)
    }
}

/// A finite map from names to values, kept as a list of pairs with distinct
/// names.
#[derive(Debug)]
pub struct EnvMap {
    entries: Vec<(String, String)>,
}

impl EnvMap {
    /// No name occurs twice.
    pub closed spec fn wf(&self) -> bool {
        keys_distinct(pair_views(self.entries@))
    }
}

impl View for EnvMap {
    type V = Map<Seq<char>, Seq<char>>;

    closed spec fn view(&self) -> Map<Seq<char>, Seq<char>> {
        assoc_map(pair_views(self.entries@))
    }
}

impl EnvMap {
    /// The empty map.
    pub fn new() -> (m: EnvMap)
        ensures
            m.wf(),
            m@ == Map::<Seq<char>, Seq<char>>::empty(),
    {
        let m = EnvMap { entries: Vec::new() };
        proof {
            lemma_assoc_empty(pair_views(m.entries@));
        }
        m
    }

    fn find(&self, name: &str) -> (r: Option<usize>)
        requires
            self.wf(),
        ensures
            match r {
                Some(i) => i < self.entries@.len() && pair_views(self.entries@)[i as int].0
                    == name@,
                None => !has_key(pair_views(self.entries@), name@),
            },
    {
        let target = chars_of(name);
        let mut i: usize = 0;
        while i < self.entries.len()
            invariant
                i <= self.entries@.len(),
                target@ == name@,
                forall|j: int| 0 <= j < i ==> #[trigger] pair_views(self.entries@)[j].0 != name@,
            decreases self.entries.len() - i,
        {
            let key = chars_of(self.entries[i].0.as_str());
            if chars_eq(&key, &target) {
                return Some(i);
            }
            i = i + 1;
        }
        None
    }

    /// The value of `name`, if it is set.
    pub fn get(&self, name: &str) -> (r: Option<&String>)
        requires
            self.wf(),
        ensures
            r.is_some() == self@.contains_key(name@),
            r matches Some(v) ==> v@ == self@[name@],
    {
        match self.find(name) {
            Some(i) => {
                proof {
                    lemma_assoc_at(pair_views(self.entries@), i as int);
                }
                Some(&self.entries[i].1)
            },
            None => None,
        }
    }

    /// Sets `name` to `value`, replacing an earlier value (`HashMap::insert`).
    pub fn insert(&mut self, name: String, value: String)
        requires
            old(self).wf(),
        ensures
            final(self).wf(),
            final(self)@ == old(self)@.insert(name@, value@),
    {
        let ghost old_pairs = pair_views(self.entries@);
        match self.find(name.as_str()) {
            Some(i) => {
                proof {
                    lemma_assoc_update(old_pairs, i as int, value@);
                }
                self.entries.set(i, (name, value));
                assert(pair_views(self.entries@) =~= old_pairs.update(
                    i as int,
                    (old_pairs[i as int].0, value@),
                ));
            },
            None => {
                proof {
                    lemma_assoc_push(old_pairs, name@, value@);
                }
                self.entries.push((name, value));
                assert(pair_views(self.entries@) =~= old_pairs.push((name@, value@)));
            },
        }
    }

    /// Sets `name` to `value` unless it is set already
    /// (`HashMap::entry(..).or_insert_with(..)`).
    pub fn insert_if_absent(&mut self, name: String, value: String)
        requires
            old(self).wf(),
        ensures
            final(self).wf(),
            old(self)@.contains_key(name@) ==> final(self)@ == old(self)@,
            !old(self)@.contains_key(name@) ==> final(self)@ == old(self)@.insert(name@, value@),
    {
        if self.find(name.as_str()).is_none() {
            self.insert(name, value);
        }
    }

    /// A copy of the map.
    pub fn duplicate(&self) -> (r: EnvMap)
        requires
            self.wf(),
        ensures
            r.wf(),
            r@ == self@,
    {
        let mut e: Vec<(String, String)> = Vec::new();
        let mut i: usize = 0;
        while i < self.entries.len()
            invariant
                i <= self.entries@.len(),
                pair_views(e@) == pair_views(self.entries@).subrange(0, i as int),
            decreases self.entries.len() - i,
        {
            let k = self.entries[i].0.clone();
            let v = self.entries[i].1.clone();
            let ghost before = e@;
            e.push((k, v));
            assert(pair_views(e@) =~= pair_views(before).push(pair_views(self.entries@)[i as int]));
            assert(pair_views(e@) =~= pair_views(self.entries@).subrange(0, i + 1));
            i = i + 1;
        }
        assert(pair_views(self.entries@).subrange(0, self.entries@.len() as int) =~= pair_views(
            self.entries@,
        ));
        EnvMap { entries: e }
    }

    /// Every (name, value) pair of the map, each name once.
    pub fn to_pairs(&self) -> (r: Vec<(String, String)>)
        requires
            self.wf(),
        ensures
            keys_distinct(pair_views(r@)),
            assoc_map(pair_views(r@)) == self@,
    {
        let d = self.duplicate();
        d.entries
    }

    /// Builds a map from pairs; a later pair for the same name wins
    /// (as collecting into a `HashMap` does).
    pub fn from_pairs(pairs: Vec<(String, String)>) -> (m: EnvMap)
        ensures
            m.wf(),
            m@ == pairs_map(pair_views(pairs@)),
    {
        let mut m = EnvMap::new();
        let mut i: usize = 0;
        let n = pairs.len();
        while i < n
            invariant
                n == pairs@.len(),
                i <= n,
                m.wf(),
                m@ == pairs_map(pair_views(pairs@).subrange(0, i as int)),
            decreases n - i,
        {
            let k = pairs[i].0.clone();
            let v = pairs[i].1.clone();
            m.insert(k, v);
            proof {
                let b = pair_views(pairs@).subrange(0, i + 1);
                assert(b.drop_last() =~= pair_views(pairs@).subrange(0, i as int));
                assert(b.last() == pair_views(pairs@)[i as int]);
            }
            i = i + 1;
        }
        assert(pair_views(pairs@).subrange(0, n as int) =~= pair_views(pairs@));
        m
    }
}

} // verus!
