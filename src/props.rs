//! Key-value property sets handed to the rendering backend.

use vstd::prelude::*;

verus! {

/// The map that a sequence of pairs describes: a later pair overrides an
/// earlier one with the same key.
pub open spec fn pairs_map(ps: Seq<(Seq<char>, Seq<char>)>) -> Map<Seq<char>, Seq<char>>
    decreases ps.len(),
{
    if ps.len() == 0 {
        Map::empty()
    } else {
        pairs_map(ps.drop_last()).insert(ps.last().0, ps.last().1)
    }
}

/// No key occurs twice.
pub open spec fn unique_keys(ps: Seq<(Seq<char>, Seq<char>)>) -> bool {
    forall|i: int, j: int| 0 <= i < ps.len() && 0 <= j < ps.len() && i != j ==> ps[i].0 != ps[j].0
}

pub proof fn lemma_pairs_map_dom(ps: Seq<(Seq<char>, Seq<char>)>, k: Seq<char>)
    ensures
        pairs_map(ps).contains_key(k) <==> exists|i: int| 0 <= i < ps.len() && ps[i].0 == k,
    decreases ps.len(),
{
    if ps.len() > 0 {
        let pre = ps.drop_last();
        lemma_pairs_map_dom(pre, k);
        if pairs_map(ps).contains_key(k) && k != ps.last().0 {
            let i = choose|i: int| 0 <= i < pre.len() && pre[i].0 == k;
            assert(ps[i].0 == k);
        }
        if exists|i: int| 0 <= i < ps.len() && ps[i].0 == k {
            let i = choose|i: int| 0 <= i < ps.len() && ps[i].0 == k;
            if i < ps.len() - 1 {
                assert(pre[i].0 == k);
            }
        }
    }
}

pub proof fn lemma_pairs_map_last(ps: Seq<(Seq<char>, Seq<char>)>, i: int)
    requires
        0 <= i < ps.len(),
        forall|j: int| i < j < ps.len() ==> ps[j].0 != ps[i].0,
    ensures
        pairs_map(ps).contains_key(ps[i].0),
        pairs_map(ps)[ps[i].0] == ps[i].1,
    decreases ps.len(),
{
    if i < ps.len() - 1 {
        let pre = ps.drop_last();
        assert(pre[i] == ps[i]);
        lemma_pairs_map_last(pre, i);
    }
}

pub proof fn lemma_pairs_map_at(ps: Seq<(Seq<char>, Seq<char>)>, i: int)
    requires
        unique_keys(ps),
        0 <= i < ps.len(),
    ensures
        pairs_map(ps).contains_key(ps[i].0),
        pairs_map(ps)[ps[i].0] == ps[i].1,
    decreases ps.len(),
{
    if i < ps.len() - 1 {
        let pre = ps.drop_last();
        assert(pre[i] == ps[i]);
        lemma_pairs_map_at(pre, i);
    }
}

pub proof fn lemma_pairs_map_update(ps: Seq<(Seq<char>, Seq<char>)>, i: int, v: Seq<char>)
    requires
        unique_keys(ps),
        0 <= i < ps.len(),
    ensures
        pairs_map(ps.update(i, (ps[i].0, v))) == pairs_map(ps).insert(ps[i].0, v),
    decreases ps.len(),
{
    let qs = ps.update(i, (ps[i].0, v));
    if i == ps.len() - 1 {
        assert(qs.drop_last() =~= ps.drop_last());
        let pre = ps.drop_last();
        assert forall|k: Seq<char>| #[trigger] pairs_map(pre).contains_key(k) implies k != ps[i].0 by {
            lemma_pairs_map_dom(pre, k);
        }
        assert(pairs_map(pre).insert(ps[i].0, v) =~= pairs_map(pre).insert(ps[i].0, ps[i].1).insert(ps[i].0, v));
    } else {
        let pre = ps.drop_last();
        assert(qs.drop_last() =~= pre.update(i, (pre[i].0, v)));
        lemma_pairs_map_update(pre, i, v);
        assert(ps.last().0 != ps[i].0);
        assert(pairs_map(qs) =~= pairs_map(ps).insert(ps[i].0, v));
    }
}

/// A set of properties: each key stands once, in order of first insertion.
#[derive(Clone, Debug)]
pub struct Properties {
    entries: Vec<(String, String)>,
}

impl Properties {
    /// The entries as pairs of character sequences, in order.
    pub closed spec fn pairs(&self) -> Seq<(Seq<char>, Seq<char>)> {
        self.entries@.map_values(|p: (String, String)| (p.0@, p.1@))
    }

    pub open spec fn map(&self) -> Map<Seq<char>, Seq<char>> {
        pairs_map(self.pairs())
    }

    pub open spec fn wf(&self) -> bool {
        unique_keys(self.pairs())
    }

    pub fn new() -> (r: Properties)
        ensures
            r.wf(),
            r.pairs() == Seq::<(Seq<char>, Seq<char>)>::empty(),
            r.map() == Map::<Seq<char>, Seq<char>>::empty(),
    {
        let r = Properties { entries: Vec::new() };
        assert(r.pairs() =~= Seq::<(Seq<char>, Seq<char>)>::empty());
        r
    }

    pub fn len(&self) -> (n: usize)
        ensures
            n == self.pairs().len(),
    {
        self.entries.len()
    }

    /// Position of the last entry under `key`.
    fn position(&self, key: &String) -> (r: Option<usize>)
        ensures
            r matches Some(i) ==> i < self.pairs().len() && self.pairs()[i as int].0 == key@
                && self.map().contains_key(key@) && self.map()[key@] == self.pairs()[i as int].1,
            r is None ==> !self.map().contains_key(key@),
    {
        let mut i: usize = self.entries.len();
        while i > 0
            invariant
                i <= self.entries.len(),
                self.pairs().len() == self.entries.len(),
                forall|j: int| i <= j < self.pairs().len() ==> self.pairs()[j].0 != key@,
            decreases i,
        {
            if self.entries[i - 1].0 == *key {
                proof {
                    lemma_pairs_map_last(self.pairs(), (i - 1) as int);
                }
                return Some(i - 1);
            }
            i -= 1;
        }
        proof {
            lemma_pairs_map_dom(self.pairs(), key@);
        }
        None
    }

    /// The value stored under `key`.
    pub fn get(&self, key: &String) -> (r: Option<String>)
        ensures
            r matches Some(v) ==> self.map().contains_key(key@) && self.map()[key@] == v@,
            r is None ==> !self.map().contains_key(key@),
    {
        match self.position(key) {
            Some(i) => Some(self.entries[i].1.clone()),
            None => None,
        }
    }

    /// Sets `key` to `value`, replacing any earlier value of `key`.
    pub fn insert(&mut self, key: String, value: String)
        requires
            old(self).wf(),
        ensures
            final(self).wf(),
            final(self).map() == old(self).map().insert(key@, value@),
    {
        match self.position(&key) {
            Some(i) => {
                let ghost ps = self.pairs();
                proof {
                    lemma_pairs_map_at(ps, i as int);
                    lemma_pairs_map_update(ps, i as int, value@);
                }
                self.entries.set(i, (key, value));
                assert(self.pairs() =~= ps.update(i as int, (ps[i as int].0, value@)));
            },
            None => {
                let ghost ps = self.pairs();
                let ghost k = key@;
                let ghost v = value@;
                self.entries.push((key, value));
                assert(self.pairs() =~= ps.push((k, v)));
                assert(self.pairs().drop_last() =~= ps);
                assert forall|j: int| 0 <= j < ps.len() implies ps[j].0 != k by {
                    lemma_pairs_map_dom(ps, k);
                }
            },
        }
    }

    /// A copy of these properties.
    pub fn duplicate(&self) -> (r: Properties)
        ensures
            r.wf(),
            r.map() == self.map(),
    {
        let mut r = Properties::new();
        r.insert_all(self);
        assert(Map::<Seq<char>, Seq<char>>::empty().union_prefer_right(self.map()) =~= self.map());
        r
    }

    pub fn key_at(&self, i: usize) -> (r: &String)
        requires
            i < self.pairs().len(),
        ensures
            r@ == self.pairs()[i as int].0,
    {
        &self.entries[i].0
    }

    pub fn value_at(&self, i: usize) -> (r: &String)
        requires
            i < self.pairs().len(),
        ensures
            r@ == self.pairs()[i as int].1,
    {
        &self.entries[i].1
    }

    /// Sets every key of `other` to its value there.
    pub fn insert_all(&mut self, other: &Properties)
        requires
            old(self).wf(),
        ensures
            final(self).wf(),
            final(self).map() == old(self).map().union_prefer_right(other.map()),
    {
        let ghost start = self.map();
        let mut i: usize = 0;
        while i < other.len()
            invariant
                self.wf(),
                i <= other.pairs().len(),
                self.map() == start.union_prefer_right(pairs_map(other.pairs().take(i as int))),
            decreases other.pairs().len() - i,
        {
            let ghost before = other.pairs().take(i as int);
            self.insert(other.key_at(i).clone(), other.value_at(i).clone());
            proof {
                let after = other.pairs().take(i + 1);
                assert(after.drop_last() =~= before);
                assert(self.map() =~= start.union_prefer_right(pairs_map(after)));
            }
            i += 1;
        }
        proof {
            assert(other.pairs().take(i as int) =~= other.pairs());
        }
    }
}

/// Properties of `base`, each overridden by the value that `overrides` gives
/// it, together with the keys that only `overrides` has.
pub fn combine(base: &Properties, overrides: &Properties) -> (r: Properties)
    ensures
        r.wf(),
        r.map() == base.map().union_prefer_right(overrides.map()),
{
    let mut r = Properties::new();
    r.insert_all(base);
    assert(Map::<Seq<char>, Seq<char>>::empty().union_prefer_right(base.map()) =~= base.map());
    r.insert_all(overrides);
    r
}

impl PartialEq for Properties {
    fn eq(&self, other: &Properties) -> (r: bool) {
        let mut i: usize = 0;
        while i < self.len()
            invariant
                i <= self.pairs().len(),
                forall|j: int|
                    0 <= j < i ==> other.map().contains_key(#[trigger] self.pairs()[j].0)
                        && self.map().contains_key(self.pairs()[j].0)
                        && other.map()[self.pairs()[j].0] == self.map()[self.pairs()[j].0],
            decreases self.pairs().len() - i,
        {
            let k = self.key_at(i);
            match (self.get(k), other.get(k)) {
                (Some(a), Some(b)) => {
                    if a != b {
                        return false;
                    }
                },
                _ => {
                    proof {
                        lemma_pairs_map_dom(self.pairs(), k@);
                    }
                    return false;
                },
            }
            i += 1;
        }
        let mut i: usize = 0;
        while i < other.len()
            invariant
                i <= other.pairs().len(),
                forall|j: int| 0 <= j < i ==> self.map().contains_key(#[trigger] other.pairs()[j].0),
            decreases other.pairs().len() - i,
        {
            if self.get(other.key_at(i)).is_none() {
                proof {
                    lemma_pairs_map_dom(other.pairs(), other.pairs()[i as int].0);
                }
                return false;
            }
            i += 1;
        }
        proof {
            assert forall|k: Seq<char>| #[trigger] self.map().contains_key(k) implies other.map().contains_key(k)
                && other.map()[k] == self.map()[k] by {
                lemma_pairs_map_dom(self.pairs(), k);
                let j = choose|j: int| 0 <= j < self.pairs().len() && self.pairs()[j].0 == k;
                assert(self.pairs()[j].0 == k);
            }
            assert forall|k: Seq<char>| #[trigger] other.map().contains_key(k) implies self.map().contains_key(k) by {
                lemma_pairs_map_dom(other.pairs(), k);
                let j = choose|j: int| 0 <= j < other.pairs().len() && other.pairs()[j].0 == k;
                assert(other.pairs()[j].0 == k);
            }
            assert(self.map() =~= other.map());
        }
        true
    }
}

impl vstd::std_specs::cmp::PartialEqSpecImpl for Properties {
    open spec fn obeys_eq_spec() -> bool {
        true
    }

    open spec fn eq_spec(&self, other: &Properties) -> bool {
        self.map() == other.map()
    }
}

} // verus!
