//! Small string-keyed lookup tables: a map from text to text and a set of
//! texts. Later insertions of a key replace earlier ones.

use vstd::prelude::*;
use vstd::string::StringExecFns;

verus! {

/// The value the last pair with key `k` holds, if any.
pub open spec fn lookup(pairs: Seq<(Seq<char>, Seq<char>)>, k: Seq<char>) -> Option<Seq<char>>
    decreases pairs.len(),
{
    if pairs.len() == 0 {
        None
    } else if pairs.last().0 == k {
        Some(pairs.last().1)
    } else {
        lookup(pairs.drop_last(), k)
    }
}

/// A map from text to text.
pub struct TextMap {
    pairs: Vec<(String, String)>,
}

impl TextMap {
    pub closed spec fn pairs_view(&self) -> Seq<(Seq<char>, Seq<char>)> {
        self.pairs@.map_values(|p: (String, String)| (p.0@, p.1@))
    }
}

impl View for TextMap {
    type V = Map<Seq<char>, Seq<char>>;

    closed spec fn view(&self) -> Map<Seq<char>, Seq<char>> {
        Map::new(
            |k: Seq<char>| lookup(self.pairs_view(), k) is Some,
            |k: Seq<char>| lookup(self.pairs_view(), k)->Some_0,
        )
    }
}

impl TextMap {
    /// An empty map.
    pub fn new() -> (m: TextMap)
        ensures
            m@ == Map::<Seq<char>, Seq<char>>::empty(),
    {
        let m = TextMap { pairs: Vec::new() };
        assert(m@ =~= Map::<Seq<char>, Seq<char>>::empty());
        m
    }

    /// Maps `k` to `v`, replacing what `k` mapped to before.
    pub fn insert(&mut self, k: String, v: String)
        ensures
            final(self)@ == old(self)@.insert(k@, v@),
    {
        let ghost before = self.pairs_view();
        self.pairs.push((k, v));
        proof {
            assert(self.pairs_view() =~= before.push((k@, v@)));
            assert(self.pairs_view().drop_last() == before);
            assert(self@ =~= old(self)@.insert(k@, v@));
        }
    }

    /// What `k` maps to.
    pub fn get(&self, k: &str) -> (r: Option<&String>)
        ensures
            match r {
                Some(v) => self@.contains_key(k@) && self@[k@] == v@,
                None => !self@.contains_key(k@),
            },
    {
        let key = String::from_str(k);
        let mut i: usize = self.pairs.len();
        assert(self.pairs_view().take(i as int) == self.pairs_view());
        while i > 0
            invariant
                i <= self.pairs.len(),
                lookup(self.pairs_view().take(i as int), k@) == lookup(self.pairs_view(), k@),
                key@ == k@,
            decreases i,
        {
            let ghost t = self.pairs_view().take(i as int);
            assert(t.drop_last() == self.pairs_view().take(i - 1 as int));
            assert(t.last() == (self.pairs@[i - 1 as int].0@, self.pairs@[i - 1 as int].1@));
            if self.pairs[i - 1].0 == key {
                return Some(&self.pairs[i - 1].1);
            }
            i -= 1;
        }
        None
    }
}

/// A set of texts.
pub struct TextSet {
    items: Vec<String>,
}

impl View for TextSet {
    type V = Set<Seq<char>>;

    closed spec fn view(&self) -> Set<Seq<char>> {
        Set::new(|k: Seq<char>| exists|i: int| 0 <= i < self.items@.len() && self.items@[i]@ == k)
    }
}

impl TextSet {
    /// An empty set.
    pub fn new() -> (s: TextSet)
        ensures
            s@ == Set::<Seq<char>>::empty(),
    {
        let s = TextSet { items: Vec::new() };
        assert(s@ =~= Set::<Seq<char>>::empty());
        s
    }

    /// Adds `k`.
    pub fn insert(&mut self, k: String)
        ensures
            final(self)@ == old(self)@.insert(k@),
    {
        self.items.push(k);
        proof {
            let n = self.items@.len() - 1;
            assert(self.items@[n]@ == k@);
            assert forall|x: Seq<char>| old(self)@.contains(x) implies #[trigger] self@.contains(x) by {
                let i = choose|i: int| 0 <= i < old(self).items@.len() && old(self).items@[i]@ == x;
                assert(self.items@[i] == old(self).items@[i]);
            }
            assert forall|x: Seq<char>| #[trigger] self@.contains(x) implies old(self)@.insert(k@).contains(x) by {
                let i = choose|i: int| 0 <= i < self.items@.len() && self.items@[i]@ == x;
                if i < n {
                    assert(old(self).items@[i] == self.items@[i]);
                }
            }
            assert(self@ =~= old(self)@.insert(k@));
        }
    }

    /// Whether `k` is in the set.
    pub fn contains(&self, k: &str) -> (r: bool)
        ensures
            r == self@.contains(k@),
    {
        let key = String::from_str(k);
        let mut i: usize = 0;
        while i < self.items.len()
            invariant
                i <= self.items.len(),
                key@ == k@,
                forall|j: int| 0 <= j < i ==> self.items@[j]@ != k@,
            decreases self.items.len() - i,
        {
            if self.items[i] == key {
                return true;
            }
            i += 1;
        }
        false
    }
}

} // verus!
