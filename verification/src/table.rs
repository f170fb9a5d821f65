//! A table of values by name.

use vstd::prelude::*;

use crate::order::{insert_named, labels, sorted, sorted_set_unique, views};
use crate::text::{same, texts, Text};

verus! {

/// Values by name. No name occurs twice.
#[derive(Debug)]
pub struct Table<V> {
    entries: Vec<(String, V)>,
}

pub open spec fn names_of<V>(v: Seq<(String, V)>) -> Seq<Text> {
    Seq::new(v.len(), |i: int| v[i].0@)
}

pub open spec fn map_of<V>(v: Seq<(String, V)>) -> Map<Text, V>
    decreases v.len(),
{
    if v.len() == 0 {
        Map::empty()
    } else {
        map_of(v.drop_last()).insert(v.last().0@, v.last().1)
    }
}

/// What the map holds, where no name occurs twice.
proof fn map_of_entries<V>(v: Seq<(String, V)>)
    requires
        names_of(v).no_duplicates(),
    ensures
        forall|i: int|
            0 <= i < v.len() ==> #[trigger] map_of(v).contains_key(v[i].0@) && map_of(v)[v[i].0@]
                == v[i].1,
        forall|k: Text|
            map_of(v).contains_key(k) ==> exists|i: int| 0 <= i < v.len() && #[trigger] v[i].0@ == k,
    decreases v.len(),
{
    if v.len() > 0 {
        let w = v.drop_last();
        assert forall|i: int, j: int| 0 <= i < j < names_of(w).len() implies names_of(w)[i]
            != names_of(w)[j] by {
            assert(names_of(v)[i] != names_of(v)[j]);
        }
        map_of_entries(w);
        assert forall|i: int| 0 <= i < v.len() implies #[trigger] map_of(v).contains_key(v[i].0@)
            && map_of(v)[v[i].0@] == v[i].1 by {
            if i < w.len() {
                assert(w[i] == v[i]);
                assert(names_of(v)[i] != names_of(v)[v.len() - 1]);
                assert(map_of(w).contains_key(w[i].0@));
            }
        }
        assert forall|k: Text| map_of(v).contains_key(k) implies exists|i: int|
            0 <= i < v.len() && #[trigger] v[i].0@ == k by {
            if k == v.last().0@ {
                assert(v[v.len() - 1].0@ == k);
            } else {
                assert(map_of(w).contains_key(k));
                let i = choose|i: int| 0 <= i < w.len() && #[trigger] w[i].0@ == k;
                assert(w[i] == v[i]);
            }
        }
    }
}

/// Are these the names of the map, each once, in order?
pub open spec fn are_sorted_keys<V>(m: Map<Text, V>, s: Seq<Text>) -> bool {
    &&& sorted(s)
    &&& s.no_duplicates()
    &&& forall|k: Text| m.contains_key(k) == s.contains(k)
}

/// The names of a map, in order.
pub open spec fn sorted_keys<V>(m: Map<Text, V>) -> Seq<Text> {
    choose|s: Seq<Text>| are_sorted_keys(m, s)
}

/// There is only one such sequence.
pub proof fn sorted_keys_unique<V>(m: Map<Text, V>, s: Seq<Text>)
    requires
        are_sorted_keys(m, s),
    ensures
        sorted_keys(m) == s,
{
    let t = sorted_keys(m);
    assert(are_sorted_keys(m, t));
    assert forall|x: Text| s.contains(x) == t.contains(x) by {
        assert(m.contains_key(x) == s.contains(x));
        assert(m.contains_key(x) == t.contains(x));
    }
    sorted_set_unique(s, t);
}

impl<V> View for Table<V> {
    type V = Map<Text, V>;

    closed spec fn view(&self) -> Map<Text, V> {
        map_of(self.entries@)
    }
}

impl<V> Table<V> {
    #[verifier::type_invariant]
    spec fn well_formed(self) -> bool {
        names_of(self.entries@).no_duplicates()
    }

    /// The names, in the order in which they came.
    pub closed spec fn names(self) -> Seq<Text> {
        names_of(self.entries@)
    }

    /// An empty table.
    pub fn new() -> (r: Table<V>)
        ensures
            r@ == Map::<Text, V>::empty(),
            r.names() == Seq::<Text>::empty(),
    {
        let r = Table { entries: Vec::new() };
        assert(names_of(r.entries@) =~= Seq::<Text>::empty());
        r
    }

    /// How many names there are.
    pub fn len(&self) -> (r: usize)
        ensures
            r == self.names().len(),
            self.names().no_duplicates(),
            forall|i: int| 0 <= i < r ==> self@.contains_key(#[trigger] self.names()[i]),
            forall|k: Text| self@.contains_key(k) ==> self.names().contains(k),
    {
        proof {
            use_type_invariant(self);
            map_of_entries(self.entries@);
            assert forall|i: int| 0 <= i < self.entries.len() implies self@.contains_key(
                #[trigger] self.names()[i],
            ) by {
                assert(map_of(self.entries@).contains_key(self.entries@[i].0@));
            }
            assert forall|k: Text| self@.contains_key(k) implies self.names().contains(k) by {
                let i = choose|i: int|
                    0 <= i < self.entries.len() && #[trigger] self.entries@[i].0@ == k;
                assert(self.names()[i] == k);
            }
        }
        self.entries.len()
    }

    /// The name at an index.
    pub fn name_at(&self, i: usize) -> (r: &str)
        requires
            i < self.names().len(),
        ensures
            r@ == self.names()[i as int],
    {
        self.entries[i].0.as_str()
    }

    /// The value at an index.
    pub fn value_at(&self, i: usize) -> (r: &V)
        requires
            i < self.names().len(),
        ensures
            *r == self@[self.names()[i as int]],
    {
        proof {
            use_type_invariant(self);
            map_of_entries(self.entries@);
            assert(map_of(self.entries@).contains_key(self.entries@[i as int].0@));
        }
        &self.entries[i].1
    }

    fn index_of(&self, name: &str) -> (r: Option<usize>)
        ensures
            match r {
                Some(i) => i < self.entries.len() && self.entries@[i as int].0@ == name@
                    && self@.contains_key(name@) && self@[name@] == self.entries@[i as int].1,
                None => !self@.contains_key(name@),
            },
    {
        proof {
            use_type_invariant(self);
            map_of_entries(self.entries@);
        }
        let mut i: usize = 0;
        while i < self.entries.len()
            invariant
                i <= self.entries.len(),
                forall|j: int| 0 <= j < i ==> (#[trigger] self.entries@[j]).0@ != name@,
                forall|i: int|
                    0 <= i < self.entries.len() ==> #[trigger] map_of(self.entries@).contains_key(
                        self.entries@[i].0@,
                    ) && map_of(self.entries@)[self.entries@[i].0@] == self.entries@[i].1,
                forall|k: Text|
                    map_of(self.entries@).contains_key(k) ==> exists|i: int|
                        0 <= i < self.entries.len() && #[trigger] self.entries@[i].0@ == k,
            decreases self.entries.len() - i,
        {
            if same(self.entries[i].0.as_str(), name) {
                assert(map_of(self.entries@).contains_key(self.entries@[i as int].0@));
                return Some(i);
            }
            i = i + 1;
        }
        None
    }

    /// The value under a name.
    pub fn get(&self, name: &str) -> (r: Option<&V>)
        ensures
            match r {
                Some(v) => self@.contains_key(name@) && *v == self@[name@],
                None => !self@.contains_key(name@),
            },
    {
        match self.index_of(name) {
            Some(i) => Some(&self.entries[i].1),
            None => None,
        }
    }

    /// Is there a value under the name?
    pub fn contains(&self, name: &str) -> (r: bool)
        ensures
            r == self@.contains_key(name@),
    {
        self.index_of(name).is_some()
    }

    /// The names, in order.
    pub fn sorted_names(&self) -> (r: Vec<String>)
        ensures
            are_sorted_keys(self@, texts(r@)),
            texts(r@) == sorted_keys(self@),
    {
        broadcast use vstd::seq_lib::group_to_multiset_ensures;

        let n = self.len();
        let mut out: Vec<String> = Vec::new();
        let mut i: usize = 0;
        let ghost all = self.names();
        assert(views(out@) =~= all.take(0));
        while i < n
            invariant
                i <= n,
                n == all.len(),
                all == self.names(),
                sorted(labels::<String>(views(out@))),
                views(out@).to_multiset() == all.take(i as int).to_multiset(),
            decreases n - i,
        {
            broadcast use vstd::seq_lib::group_to_multiset_ensures;

            insert_named(&mut out, crate::text::owned(self.name_at(i)));
            assert(all.take(i + 1) =~= all.take(i as int).push(all[i as int]));
            i = i + 1;
        }
        proof {
            assert(all.take(n as int) =~= all);
            let t = texts(out@);
            assert(t =~= views(out@));
            assert(labels::<String>(views(out@)) =~= t);
            all.lemma_multiset_has_no_duplicates();
            t.lemma_multiset_has_no_duplicates_conv();
            assert forall|k: Text| self@.contains_key(k) == t.contains(k) by {
                assert(t.contains(k) <==> t.to_multiset().count(k) > 0);
                assert(all.contains(k) <==> all.to_multiset().count(k) > 0);
                if all.contains(k) {
                    let j = choose|j: int| 0 <= j < all.len() && all[j] == k;
                    assert(self@.contains_key(self.names()[j]));
                }
            }
            sorted_keys_unique(self@, t);
        }
        out
    }

    /// Take the value out that stands under a name.
    pub fn remove(&mut self, name: &str) -> (r: Option<V>)
        ensures
            final(self)@ == old(self)@.remove(name@),
            match r {
                Some(v) => old(self)@.contains_key(name@) && v == old(self)@[name@],
                None => !old(self)@.contains_key(name@),
            },
    {
        match self.index_of(name) {
            None => {
                assert(self@ =~= self@.remove(name@));
                None
            },
            Some(i) => {
                proof {
                    use_type_invariant(&*self);
                }
                let ghost was = self.entries@;
                let mut entries: Vec<(String, V)> = Vec::new();
                core::mem::swap(&mut entries, &mut self.entries);
                let (_, v) = entries.remove(i);
                proof {
                    let now = entries@;
                    assert(now =~= was.remove(i as int));
                    assert(names_of(now) =~= names_of(was).remove(i as int));
                    assert(names_of(now).no_duplicates());
                    map_of_entries(was);
                    map_of_entries(now);
                    let a = map_of(now);
                    let b = map_of(was).remove(name@);
                    assert forall|k: Text| #[trigger]
                        a.contains_key(k) == b.contains_key(k) && (a.contains_key(k) ==> a[k]
                            == b[k]) by {
                        if a.contains_key(k) {
                            let j = choose|j: int| 0 <= j < now.len() && #[trigger] now[j].0@ == k;
                            let p: int = if j < i { j } else { j + 1 };
                            assert(now[j] == was[p]);
                            assert(map_of(was).contains_key(was[p].0@));
                            assert(names_of(was)[p] != names_of(was)[i as int]);
                            assert(map_of(now).contains_key(now[j].0@));
                        }
                        if b.contains_key(k) {
                            let p = choose|p: int| 0 <= p < was.len() && #[trigger] was[p].0@ == k;
                            let j: int = if p < i { p } else { p - 1 };
                            assert(now[j] == was[p]);
                            assert(map_of(now).contains_key(now[j].0@));
                        }
                    }
                    assert(a.dom() =~= b.dom());
                    assert(a =~= b);
                }
                self.entries = entries;
                Some(v)
            },
        }
    }

    /// Put a value under a name, in place of the one there.
    pub fn insert(&mut self, name: String, value: V)
        ensures
            final(self)@ == old(self)@.insert(name@, value),
    {
        let _ = self.remove(name.as_str());
        proof {
            use_type_invariant(&*self);
            map_of_entries(self.entries@);
        }
        let ghost was = self.entries@;
        let ghost before = self@;
        let mut entries: Vec<(String, V)> = Vec::new();
        core::mem::swap(&mut entries, &mut self.entries);
        entries.push((name, value));
        proof {
            assert(entries@.drop_last() =~= was);
            assert forall|i: int, j: int|
                0 <= i < names_of(entries@).len() && 0 <= j < names_of(entries@).len() && i
                    != j implies names_of(entries@)[i] != names_of(entries@)[j] by {
                let p = if i < j { i } else { j };
                let q = if i < j { j } else { i };
                assert(names_of(entries@)[p] == names_of(was)[p]);
                if q == was.len() {
                    assert(map_of(was).contains_key(was[p].0@));
                    assert(!before.contains_key(name@));
                } else {
                    assert(names_of(entries@)[q] == names_of(was)[q]);
                }
            }
        }
        self.entries = entries;
        assert(self@ =~= old(self)@.insert(name@, value));
    }
}

} // verus!
