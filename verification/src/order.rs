//! The order of names, and lists that are kept in it.

use vstd::prelude::*;

use crate::text::{chars, same, texts, Text};

verus! {

/// The order of strings: by the first character in which they differ; a prefix
/// comes first.
pub open spec fn before(a: Text, b: Text) -> bool
    decreases a.len(),
{
    if b.len() == 0 {
        false
    } else if a.len() == 0 {
        true
    } else if a[0] == b[0] {
        before(a.skip(1), b.skip(1))
    } else {
        a[0] < b[0]
    }
}

/// No string stands before itself, and of two different ones exactly one
/// stands before the other.
pub proof fn before_total(a: Text, b: Text)
    ensures
        before(a, b) ==> !before(b, a) && a != b,
        before(a, b) || before(b, a) || a == b,
    decreases a.len(),
{
    if a.len() > 0 && b.len() > 0 && a[0] == b[0] {
        before_total(a.skip(1), b.skip(1));
        assert(a =~= seq![a[0]] + a.skip(1));
        assert(b =~= seq![b[0]] + b.skip(1));
    } else if a.len() == 0 && b.len() == 0 {
        assert(a =~= b);
    }
}

/// The order is transitive.
pub proof fn before_transitive(a: Text, b: Text, c: Text)
    requires
        !before(b, a),
        !before(c, b),
    ensures
        !before(c, a),
    decreases a.len(),
{
    if a.len() > 0 && c.len() > 0 && b.len() > 0 && a[0] == b[0] && b[0] == c[0] {
        before_transitive(a.skip(1), b.skip(1), c.skip(1));
    }
}

/// In order, equal ones side by side.
pub open spec fn sorted(v: Seq<Text>) -> bool {
    forall|i: int, j: int| 0 <= i < j < v.len() ==> !before(#[trigger] v[j], #[trigger] v[i])
}

/// `a < b`.
pub fn comes_before(a: &str, b: &str) -> (r: bool)
    ensures
        r == before(a@, b@),
{
    let v = chars(a);
    let w = chars(b);
    let mut i: usize = 0;
    assert(v@.skip(0) =~= v@);
    assert(w@.skip(0) =~= w@);
    while i < v.len() && i < w.len()
        invariant
            i <= v.len(),
            i <= w.len(),
            v@ == a@,
            w@ == b@,
            before(v@, w@) == before(v@.skip(i as int), w@.skip(i as int)),
        decreases v.len() - i,
    {
        if v[i] != w[i] {
            return v[i] < w[i];
        }
        proof {
            assert(v@.skip(i as int).skip(1) =~= v@.skip(i + 1));
            assert(w@.skip(i as int).skip(1) =~= w@.skip(i + 1));
        }
        i = i + 1;
    }
    i < w.len()
}

/// Two sequences that hold the same texts in order are equal.
pub proof fn sorted_unique(a: Seq<Text>, b: Seq<Text>)
    requires
        sorted(a),
        sorted(b),
        a.to_multiset() == b.to_multiset(),
    ensures
        a == b,
    decreases a.len(),
{
    broadcast use vstd::seq_lib::group_to_multiset_ensures;

    assert(a.to_multiset().len() == a.len());
    assert(b.to_multiset().len() == b.len());
    if a.len() == 0 {
        assert(a =~= b);
    } else {
        let x = a.last();
        let y = b.last();
        assert(b.to_multiset().count(x) > 0) by {
            assert(a.contains(x));
        }
        assert(a.to_multiset().count(y) > 0) by {
            assert(b.contains(y));
        }
        let i = choose|i: int| 0 <= i < b.len() && b[i] == x;
        let j = choose|j: int| 0 <= j < a.len() && a[j] == y;
        before_total(x, y);
        before_total(x, x);
        before_total(y, y);
        assert(x == y);
        assert(a.drop_last() =~= a.remove(a.len() - 1));
        assert(b.drop_last() =~= b.remove(b.len() - 1));
        assert(a.drop_last().to_multiset() =~= a.to_multiset().remove(x));
        assert(b.drop_last().to_multiset() =~= b.to_multiset().remove(y));
        sorted_unique(a.drop_last(), b.drop_last());
        assert(a =~= a.drop_last().push(x));
        assert(b =~= b.drop_last().push(y));
    }
}

/// Two sequences that hold the same texts, each once and in order, are equal.
pub proof fn sorted_set_unique(s: Seq<Text>, t: Seq<Text>)
    requires
        sorted(s),
        sorted(t),
        s.no_duplicates(),
        t.no_duplicates(),
        forall|x: Text| s.contains(x) == t.contains(x),
    ensures
        s == t,
{
    broadcast use vstd::seq_lib::group_to_multiset_ensures;

    s.lemma_multiset_has_no_duplicates();
    t.lemma_multiset_has_no_duplicates();
    assert forall|x: Text| s.to_multiset().count(x) == t.to_multiset().count(x) by {
        assert(s.contains(x) == t.contains(x));
        assert(s.contains(x) <==> s.to_multiset().count(x) > 0);
        assert(t.contains(x) <==> t.to_multiset().count(x) > 0);
    }
    assert(s.to_multiset() =~= t.to_multiset());
    sorted_unique(s, t);
}

/// A value that lists order by a name.
pub trait Named: View + Sized {
    spec fn label(v: Self::V) -> Text;

    fn name_of(&self) -> (r: &str)
        ensures
            r@ == Self::label(self@),
    ;
}

impl Named for String {
    open spec fn label(v: Seq<char>) -> Text {
        v
    }

    fn name_of(&self) -> (r: &str) {
        self.as_str()
    }
}

/// The views of a sequence.
pub open spec fn views<T: View>(v: Seq<T>) -> Seq<T::V> {
    Seq::new(v.len(), |i: int| v[i]@)
}

/// The names of a sequence.
pub open spec fn labels<T: Named>(s: Seq<T::V>) -> Seq<Text> {
    Seq::new(s.len(), |i: int| T::label(s[i]))
}

/// Is `r` what `s` holds, in the order of the names?
pub open spec fn ordered<T: Named>(r: Seq<T::V>, s: Seq<T::V>) -> bool {
    sorted(labels::<T>(r)) && r.to_multiset() == s.to_multiset()
}

/// Where a name goes in an ordered list: behind those that do not come after
/// it.
pub open spec fn place(names: Seq<Text>, l: Text) -> nat
    decreases names.len(),
{
    if names.len() == 0 {
        0
    } else if before(l, names.last()) {
        place(names.drop_last(), l)
    } else {
        names.len()
    }
}

/// The values in the order of their names; those of equal names stay in the
/// order in which they came.
pub open spec fn sorting<T: Named>(s: Seq<T::V>) -> Seq<T::V>
    decreases s.len(),
{
    if s.len() == 0 {
        seq![]
    } else {
        let init = sorting::<T>(s.drop_last());
        init.insert(place(labels::<T>(init), T::label(s.last())) as int, s.last())
    }
}

proof fn place_is_inside(names: Seq<Text>, l: Text)
    ensures
        place(names, l) <= names.len(),
        forall|j: int| place(names, l) <= j < names.len() ==> before(l, #[trigger] names[j]),
        place(names, l) > 0 ==> !before(l, names[place(names, l) - 1]),
    decreases names.len(),
{
    if names.len() > 0 && before(l, names.last()) {
        let init = names.drop_last();
        place_is_inside(init, l);
        assert forall|j: int| place(names, l) <= j < names.len() implies before(
            l,
            #[trigger] names[j],
        ) by {
            if j < init.len() {
                assert(init[j] == names[j]);
            }
        }
    }
}

/// Insertion behind those that do not come after keeps the order.
proof fn placing_keeps_order(names: Seq<Text>, l: Text)
    requires
        sorted(names),
    ensures
        sorted(names.insert(place(names, l) as int, l)),
{
    place_is_inside(names, l);
    let i = place(names, l) as int;
    let now = names.insert(i, l);
    assert forall|j: int| 0 <= j < i implies !before(l, #[trigger] names[j]) by {
        before_total(names[i - 1], names[j]);
        before_transitive(names[j], names[i - 1], l);
    }
    assert forall|p: int, q: int| 0 <= p < q < now.len() implies !before(
        #[trigger] now[q],
        #[trigger] now[p],
    ) by {
        before_total(l, l);
        if q == i {
            assert(now[p] == names[p]);
        } else if p == i {
            assert(now[q] == names[q - 1]);
            before_total(l, names[q - 1]);
        } else {
            let a: int = if p < i { p } else { p - 1 };
            let b: int = if q < i { q } else { q - 1 };
            assert(now[p] == names[a]);
            assert(now[q] == names[b]);
        }
    }
}

/// Sorting puts the names in order and loses nothing.
pub proof fn sorting_is_ordered<T: Named>(s: Seq<T::V>)
    ensures
        ordered::<T>(sorting::<T>(s), s),
    decreases s.len(),
{
    broadcast use vstd::seq_lib::group_to_multiset_ensures;

    if s.len() > 0 {
        let init = sorting::<T>(s.drop_last());
        sorting_is_ordered::<T>(s.drop_last());
        let l = T::label(s.last());
        place_is_inside(labels::<T>(init), l);
        placing_keeps_order(labels::<T>(init), l);
        let k = place(labels::<T>(init), l) as int;
        assert(labels::<T>(sorting::<T>(s)) =~= labels::<T>(init).insert(k, l));
        assert(s =~= s.drop_last().push(s.last()));
    } else {
        assert(s =~= seq![]);
        assert(labels::<T>(sorting::<T>(s)) =~= seq![]);
    }
}

/// Put a value into an ordered list, behind those that do not come after it.
pub fn insert_named<T: Named>(v: &mut Vec<T>, x: T)
    requires
        sorted(labels::<T>(views(old(v)@))),
    ensures
        sorted(labels::<T>(views(final(v)@))),
        views(final(v)@) == views(old(v)@).insert(
            place(labels::<T>(views(old(v)@)), T::label(x@)) as int,
            x@,
        ),
        views(final(v)@).to_multiset() == views(old(v)@).to_multiset().insert(x@),
{
    broadcast use vstd::seq_lib::group_to_multiset_ensures;

    let mut i: usize = v.len();
    let ghost was = labels::<T>(views(v@));
    let ghost was_views = views(v@);
    let ghost t = T::label(x@);
    let ghost view_of_x = x@;
    assert(was.take(was.len() as int) =~= was);
    while i > 0 && comes_before(x.name_of(), v[i - 1].name_of())
        invariant
            i <= v.len(),
            v@ == old(v)@,
            was == labels::<T>(views(v@)),
            t == T::label(x@),
            place(was, t) == place(was.take(i as int), t),
        decreases i,
    {
        i = i - 1;
        proof {
            let s = was.take(i + 1);
            assert(s.last() == was[i as int]);
            assert(s.drop_last() =~= was.take(i as int));
        }
    }
    proof {
        let s = was.take(i as int);
        if i > 0 {
            assert(s.last() == was[i - 1]);
        }
        place_is_inside(was, t);
        placing_keeps_order(was, t);
    }
    v.insert(i, x);
    proof {
        assert(views(v@) =~= was_views.insert(i as int, view_of_x));
        assert(labels::<T>(views(v@)) =~= was.insert(i as int, t));
    }
}

/// Put a name into an ordered list unless it is there.
pub fn insert_once(v: &mut Vec<String>, s: String)
    requires
        sorted(texts(old(v)@)),
        texts(old(v)@).no_duplicates(),
    ensures
        sorted(texts(final(v)@)),
        texts(final(v)@).no_duplicates(),
        forall|x: Text|
            #[trigger] texts(final(v)@).contains(x) <==> (texts(old(v)@).contains(x) || x == s@),
{
    broadcast use vstd::seq_lib::group_to_multiset_ensures;

    let mut i: usize = 0;
    while i < v.len()
        invariant
            i <= v.len(),
            v@ == old(v)@,
            sorted(texts(old(v)@)),
            texts(old(v)@).no_duplicates(),
            forall|j: int| 0 <= j < i ==> (#[trigger] texts(v@)[j]) != s@,
        decreases v.len() - i,
    {
        if same(v[i].as_str(), s.as_str()) {
            assert(texts(v@)[i as int] == s@);
            return;
        }
        i = i + 1;
    }
    let ghost was = texts(v@);
    let ghost t = s@;
    proof {
        assert(labels::<String>(views(v@)) =~= was);
        assert(views(v@) =~= was);
    }
    insert_named(v, s);
    proof {
        let now = texts(v@);
        assert(labels::<String>(views(v@)) =~= now);
        assert(views(v@) =~= now);
        was.lemma_multiset_has_no_duplicates();
        assert(was.to_multiset().count(t) == 0) by {
            assert(!was.contains(t));
        }
        assert(now.to_multiset() == was.to_multiset().insert(t));
        now.lemma_multiset_has_no_duplicates_conv();
        assert forall|x: Text| #[trigger] now.contains(x) <==> (was.contains(x) || x == t) by {
            assert(now.contains(x) <==> now.to_multiset().count(x) > 0);
            assert(was.contains(x) <==> was.to_multiset().count(x) > 0);
        }
    }
}

/// A text comes before another one where it has the smaller character at the first place
/// where they differ, or ends there.
pub proof fn the_first_difference_decides(p: Text, a: Text, b: Text)
    requires
        a.len() > 0 && b.len() > 0 ==> a[0] != b[0],
    ensures
        before(p + a, p + b) <==> b.len() > 0 && (a.len() == 0 || a[0] < b[0]),
    decreases p.len(),
{
    if p.len() == 0 {
        assert(p + a =~= a);
        assert(p + b =~= b);
    } else {
        let q = p.skip(1);
        the_first_difference_decides(q, a, b);
        assert((p + a).skip(1) =~= q + a);
        assert((p + b).skip(1) =~= q + b);
        assert((p + a)[0] == p[0] && (p + b)[0] == p[0]);
    }
}

} // verus!
