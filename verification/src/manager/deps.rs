//! The dependency graph over the unit table.
//!
//! These work on the dependencies that each unit's `[Unit]` section declares.

use vstd::prelude::*;

use crate::manager::state::Unit;
use crate::table::Table;
use crate::text::{owned, same, texts, Text};

verus! {

/// Which dependencies of a unit are followed.
#[derive(Debug, Clone, Copy, PartialEq, Eq, Structural)]
pub enum Edge {
    /// `Requires=` and `BindsTo=`.
    Requires,
    Wants,
    Requisite,
    Conflicts,
    After,
    OnFailure,
}

/// The names that a unit's dependencies of a kind have.
pub open spec fn edges(u: Unit, e: Edge) -> Seq<Text> {
    match u.file {
        None => seq![],
        Some(f) => match e {
            Edge::Requires => texts(f.unit.requires@) + texts(f.unit.binds_to@),
            Edge::Wants => texts(f.unit.wants@),
            Edge::Requisite => texts(f.unit.requisite@),
            Edge::Conflicts => texts(f.unit.conflicts@),
            Edge::After => texts(f.unit.after@),
            Edge::OnFailure => texts(f.unit.on_failure@),
        },
    }
}

/// A copy of a list of names.
fn copy_names(v: &Vec<String>) -> (r: Vec<String>)
    ensures
        texts(r@) == texts(v@),
{
    let mut out: Vec<String> = Vec::new();
    let mut i: usize = 0;
    while i < v.len()
        invariant
            i <= v.len(),
            out.len() == i,
            forall|j: int| 0 <= j < i ==> (#[trigger] out@[j])@ == v@[j]@,
        decreases v.len() - i,
    {
        out.push(v[i].clone());
        i = i + 1;
    }
    assert(texts(out@) =~= texts(v@));
    out
}

/// What the unit needs: `Requires=`, then `BindsTo=`.
pub fn required(u: &Unit) -> (r: Vec<String>)
    ensures
        texts(r@) == edges(*u, Edge::Requires),
        u.file is Some ==> texts(r@) == texts(u.file->0.unit.requires@) + texts(
            u.file->0.unit.binds_to@,
        ),
        u.file is None ==> r@.len() == 0,
{
    match &u.file {
        Some(f) => {
            let mut v = copy_names(&f.unit.requires);
            let mut w = copy_names(&f.unit.binds_to);
            let ghost a = v@;
            let ghost b = w@;
            v.append(&mut w);
            assert(texts(v@) =~= texts(a) + texts(b));
            v
        },
        None => no_names(),
    }
}

fn no_names() -> (r: Vec<String>)
    ensures
        texts(r@) == Seq::<Text>::empty(),
        r@.len() == 0,
{
    let r: Vec<String> = Vec::new();
    assert(texts(r@) =~= Seq::<Text>::empty());
    r
}

pub fn wants(u: &Unit) -> (r: Vec<String>)
    ensures
        texts(r@) == edges(*u, Edge::Wants),
        u.file is Some ==> texts(r@) == texts(u.file->0.unit.wants@),
        u.file is None ==> r@.len() == 0,
{
    match &u.file {
        Some(f) => copy_names(&f.unit.wants),
        None => no_names(),
    }
}

pub fn requisite(u: &Unit) -> (r: Vec<String>)
    ensures
        texts(r@) == edges(*u, Edge::Requisite),
        u.file is Some ==> texts(r@) == texts(u.file->0.unit.requisite@),
        u.file is None ==> r@.len() == 0,
{
    match &u.file {
        Some(f) => copy_names(&f.unit.requisite),
        None => no_names(),
    }
}

pub fn conflicts(u: &Unit) -> (r: Vec<String>)
    ensures
        texts(r@) == edges(*u, Edge::Conflicts),
        u.file is Some ==> texts(r@) == texts(u.file->0.unit.conflicts@),
        u.file is None ==> r@.len() == 0,
{
    match &u.file {
        Some(f) => copy_names(&f.unit.conflicts),
        None => no_names(),
    }
}

pub fn after(u: &Unit) -> (r: Vec<String>)
    ensures
        texts(r@) == edges(*u, Edge::After),
        u.file is Some ==> texts(r@) == texts(u.file->0.unit.after@),
        u.file is None ==> r@.len() == 0,
{
    match &u.file {
        Some(f) => copy_names(&f.unit.after),
        None => no_names(),
    }
}

pub fn on_failure(u: &Unit) -> (r: Vec<String>)
    ensures
        texts(r@) == edges(*u, Edge::OnFailure),
        u.file is Some ==> texts(r@) == texts(u.file->0.unit.on_failure@),
        u.file is None ==> r@.len() == 0,
{
    match &u.file {
        Some(f) => copy_names(&f.unit.on_failure),
        None => no_names(),
    }
}

fn edge_names(u: &Unit, e: Edge) -> (r: Vec<String>)
    ensures
        texts(r@) == edges(*u, e),
{
    match e {
        Edge::Requires => required(u),
        Edge::Wants => wants(u),
        Edge::Requisite => requisite(u),
        Edge::Conflicts => conflicts(u),
        Edge::After => after(u),
        Edge::OnFailure => on_failure(u),
    }
}

// ---- reachability ---------------------------------------------------------------

/// Does a unit depend on another one directly? One on itself does not count.
pub open spec fn depends(units: Map<Text, Unit>, e: Edge, a: Text, b: Text) -> bool {
    units.contains_key(a) && a != b && edges(units[a], e).contains(b)
}

/// Is each name on the path followed by one that it depends on?
pub open spec fn is_path(units: Map<Text, Unit>, e: Edge, p: Seq<Text>) -> bool {
    p.len() >= 2 && forall|i: int| 0 <= i < p.len() - 1 ==> depends(units, e, #[trigger] p[i], p[i + 1])
}

/// Is there a path, of one step or more?
pub open spec fn reaches(units: Map<Text, Unit>, e: Edge, a: Text, b: Text) -> bool {
    exists|p: Seq<Text>| #[trigger] is_path(units, e, p) && p[0] == a && p.last() == b
}

/// One step further.
proof fn reach_step(units: Map<Text, Unit>, e: Edge, a: Text, b: Text, c: Text)
    requires
        a == b || reaches(units, e, a, b),
        depends(units, e, b, c),
    ensures
        reaches(units, e, a, c),
{
    if reaches(units, e, a, b) {
        let p = choose|p: Seq<Text>| #[trigger] is_path(units, e, p) && p[0] == a && p.last() == b;
        let q = p.push(c);
        assert forall|i: int| 0 <= i < q.len() - 1 implies depends(
            units,
            e,
            #[trigger] q[i],
            q[i + 1],
        ) by {
            if i < p.len() - 1 {
                assert(depends(units, e, p[i], p[i + 1]));
            }
        }
        assert(is_path(units, e, q));
        assert(q.last() == c);
    } else {
        let q = seq![b, c];
        assert(is_path(units, e, q));
        assert(q.last() == c);
    }
}

/// A set of names that is closed under a step holds all that is reached.
proof fn closed_holds_all(
    units: Map<Text, Unit>,
    e: Edge,
    start: Text,
    out: Seq<Text>,
    p: Seq<Text>,
    k: int,
)
    requires
        is_path(units, e, p),
        p[0] == start,
        1 <= k < p.len(),
        forall|a: Text, b: Text|
            (a == start || out.contains(a)) && #[trigger] depends(units, e, a, b) ==> out.contains(
                b,
            ),
    ensures
        out.contains(p[k]),
    decreases k,
{
    if k > 1 {
        closed_holds_all(units, e, start, out, p, k - 1);
    }
    assert(depends(units, e, p[k - 1], p[k - 1 + 1]));
}

/// All names that some unit of the list depends on.
spec fn targets(units: Map<Text, Unit>, e: Edge, names: Seq<Text>) -> Seq<Text>
    decreases names.len(),
{
    if names.len() == 0 {
        seq![]
    } else {
        targets(units, e, names.drop_last()) + edges(units[names.last()], e)
    }
}

proof fn targets_hold(units: Map<Text, Unit>, e: Edge, names: Seq<Text>, a: Text, b: Text)
    requires
        names.contains(a),
        edges(units[a], e).contains(b),
    ensures
        targets(units, e, names).contains(b),
    decreases names.len(),
{
    let init = names.drop_last();
    let t = targets(units, e, names);
    let i = choose|i: int| 0 <= i < names.len() && names[i] == a;
    if i == names.len() - 1 {
        let last = edges(units[names.last()], e);
        let j = choose|j: int| 0 <= j < last.len() && last[j] == b;
        assert(t[targets(units, e, init).len() + j] == b);
    } else {
        assert(init[i] == a);
        targets_hold(units, e, init, a, b);
        let s = targets(units, e, init);
        let j = choose|j: int| 0 <= j < s.len() && s[j] == b;
        assert(t[j] == b);
    }
}

/// Is the name in the list?
fn listed(v: &Vec<String>, name: &str) -> (r: bool)
    ensures
        r == texts(v@).contains(name@),
{
    let mut i: usize = 0;
    while i < v.len()
        invariant
            i <= v.len(),
            forall|j: int| 0 <= j < i ==> (#[trigger] texts(v@)[j]) != name@,
        decreases v.len() - i,
    {
        if same(v[i].as_str(), name) {
            assert(texts(v@)[i as int] == name@);
            return true;
        }
        i = i + 1;
    }
    false
}

/// The names in a unit's list that are new: neither the unit's own nor found
/// before, each once and in order.
pub open spec fn new_names(names: Seq<Text>, n: Text, found: Seq<Text>) -> Seq<Text>
    decreases names.len(),
{
    if names.len() == 0 {
        seq![]
    } else {
        let rest = new_names(names.drop_last(), n, found);
        let d = names.last();
        if d == n || found.contains(d) || rest.contains(d) {
            rest
        } else {
            rest.push(d)
        }
    }
}

/// What a unit adds to what was found.
pub open spec fn added(units: Map<Text, Unit>, e: Edge, n: Text, found: Seq<Text>) -> Seq<Text> {
    if units.contains_key(n) {
        new_names(edges(units[n], e), n, found)
    } else {
        seq![]
    }
}

/// What is found in all when the last of the names that wait is followed first,
/// and what it adds waits behind the others; nothing where that takes more
/// steps than given.
pub open spec fn walk(
    units: Map<Text, Unit>,
    e: Edge,
    waiting: Seq<Text>,
    found: Seq<Text>,
    steps: nat,
) -> Option<Seq<Text>>
    decreases steps,
{
    if waiting.len() == 0 {
        Some(found)
    } else if steps == 0 {
        None
    } else {
        let new = added(units, e, waiting.last(), found);
        walk(units, e, waiting.drop_last() + new, found + new, (steps - 1) as nat)
    }
}

/// Are these the names that are reached from `start`, each once, in the order in
/// which they are found?
pub open spec fn is_closure(units: Map<Text, Unit>, e: Edge, start: Text, r: Seq<Text>) -> bool {
    &&& r.no_duplicates()
    &&& forall|b: Text| #[trigger] r.contains(b) <==> reaches(units, e, start, b)
    &&& exists|steps: nat| #[trigger] walk(units, e, seq![start], seq![], steps) == Some(r)
}

/// The names that are reached over dependencies of a kind, each once.
fn closure(units: &Table<Unit>, start: &str, e: Edge) -> (r: Vec<String>)
    ensures
        is_closure(units@, e, start@, texts(r@)),
{
    let _ = units.len();
    let ghost names = units.names();
    let ghost all = targets(units@, e, names).to_set();
    let mut queue: Vec<String> = Vec::new();
    queue.push(owned(start));
    let mut out: Vec<String> = Vec::new();
    let ghost mut steps: nat = 0;
    proof {
        assert(texts(queue@) =~= seq![start@]);
        assert(texts(queue@)[0] == start@);
        assert(texts(out@) =~= seq![]);
        vstd::seq_lib::seq_to_set_is_finite(targets(units@, e, names));
    }
    while queue.len() > 0
        invariant
            all == targets(units@, e, names).to_set(),
            all.finite(),
            forall|k: Text| units@.contains_key(k) ==> names.contains(k),
            texts(out@).no_duplicates(),
            forall|b: Text|
                #[trigger] texts(out@).contains(b) ==> reaches(units@, e, start@, b) && all.contains(
                    b,
                ),
            forall|j: int|
                0 <= j < queue.len() ==> (#[trigger] texts(queue@)[j]) == start@ || texts(
                    out@,
                ).contains(texts(queue@)[j]),
            forall|a: Text, b: Text|
                (a == start@ || texts(out@).contains(a)) && !texts(queue@).contains(a)
                    && #[trigger] depends(units@, e, a, b) ==> texts(out@).contains(b),
            forall|m: nat|
                (#[trigger] walk(units@, e, texts(queue@), texts(out@), m)) is Some ==> walk(
                    units@,
                    e,
                    seq![start@],
                    seq![],
                    m + steps,
                ) == walk(units@, e, texts(queue@), texts(out@), m),
        decreases all.difference(texts(out@).to_set()).len(), queue.len(),
    {
        let ghost queue_was = texts(queue@);
        let ghost out_was = texts(out@);
        let name = match queue.pop() {
            Some(x) => x,
            None => {
                return out;
            },
        };
        let ghost rest = texts(queue@);
        proof {
            assert(rest =~= queue_was.drop_last());
            assert(queue_was.last() == name@);
            assert(queue_was[queue_was.len() - 1] == name@);
            assert forall|a: Text| a != name@ && queue_was.contains(a) implies rest.contains(a) by {
                let j = choose|j: int| 0 <= j < queue_was.len() && queue_was[j] == a;
                assert(rest[j] == a);
            }
            assert forall|j: int| 0 <= j < rest.len() implies #[trigger] rest[j] == start@
                || out_was.contains(rest[j]) by {
                assert(rest[j] == queue_was[j]);
            }
        }
        match units.get(name.as_str()) {
            None => {},
            Some(u) => {
                let ds = edge_names(u, e);
                let mut i: usize = 0;
                proof {
                    assert(texts(ds@).take(0) =~= seq![]);
                    assert(out_was + new_names(texts(ds@).take(0), name@, out_was) =~= out_was);
                    assert(rest + new_names(texts(ds@).take(0), name@, out_was) =~= rest);
                }
                while i < ds.len()
                    invariant
                        i <= ds.len(),
                        all == targets(units@, e, names).to_set(),
                        all.finite(),
                        forall|k: Text| units@.contains_key(k) ==> names.contains(k),
                        units@.contains_key(name@),
                        units@[name@] == *u,
                        texts(ds@) == edges(*u, e),
                        name@ == start@ || reaches(units@, e, start@, name@),
                        texts(out@).no_duplicates(),
                        forall|b: Text|
                            #[trigger] texts(out@).contains(b) ==> reaches(units@, e, start@, b)
                                && all.contains(b),
                        forall|b: Text| out_was.contains(b) ==> #[trigger] texts(out@).contains(b),
                        forall|j: int|
                            0 <= j < queue.len() ==> (#[trigger] texts(queue@)[j]) == start@
                                || texts(out@).contains(texts(queue@)[j]),
                        forall|a: Text| rest.contains(a) ==> #[trigger] texts(queue@).contains(a),
                        forall|b: Text|
                            #[trigger] texts(out@).contains(b) && !out_was.contains(b)
                                ==> texts(queue@).contains(b),
                        forall|j: int|
                            0 <= j < i && texts(ds@)[j] != name@ ==> texts(out@).contains(
                                #[trigger] texts(ds@)[j],
                            ),
                        texts(out@) == out_was + new_names(
                            texts(ds@).take(i as int),
                            name@,
                            out_was,
                        ),
                        texts(queue@) == rest + new_names(
                            texts(ds@).take(i as int),
                            name@,
                            out_was,
                        ),
                        texts(out@).len() >= out_was.len(),
                        texts(out@).len() == out_was.len() ==> texts(out@) == out_was && texts(
                            queue@,
                        ) == rest,
                    decreases ds.len() - i,
                {
                    let d = ds[i].as_str();
                    assert(texts(ds@)[i as int] == d@);
                    let ghost upto = texts(ds@).take(i + 1);
                    let ghost new = new_names(texts(ds@).take(i as int), name@, out_was);
                    proof {
                        assert(upto.drop_last() =~= texts(ds@).take(i as int));
                        assert(upto.last() == d@);
                        in_either(out_was, new, d@);
                    }
                    if !same(d, name.as_str()) && !listed(&out, d) {
                        let ghost o = texts(out@);
                        let ghost q = texts(queue@);
                        proof {
                            assert(edges(*u, e).contains(d@));
                            assert(depends(units@, e, name@, d@));
                            reach_step(units@, e, start@, name@, d@);
                            targets_hold(units@, e, names, name@, d@);
                        }
                        out.push(owned(d));
                        queue.push(owned(d));
                        proof {
                            assert(texts(out@) =~= o.push(d@));
                            assert(texts(queue@) =~= q.push(d@));
                            assert(texts(out@) =~= out_was + new.push(d@));
                            assert(texts(queue@) =~= rest + new.push(d@));
                            assert forall|b: Text| #[trigger] texts(out@).contains(b) == (
                            o.contains(b) || b == d@) by {
                                if o.contains(b) {
                                    let j = choose|j: int| 0 <= j < o.len() && o[j] == b;
                                    assert(texts(out@)[j] == b);
                                }
                                assert(texts(out@)[o.len() as int] == d@);
                            }
                            assert forall|b: Text| #[trigger] texts(queue@).contains(b) == (
                            q.contains(b) || b == d@) by {
                                if q.contains(b) {
                                    let j = choose|j: int| 0 <= j < q.len() && q[j] == b;
                                    assert(texts(queue@)[j] == b);
                                }
                                assert(texts(queue@)[q.len() as int] == d@);
                            }
                            assert forall|j: int| 0 <= j < queue.len() implies (#[trigger] texts(
                                queue@,
                            )[j]) == start@ || texts(out@).contains(texts(queue@)[j]) by {
                                if j < q.len() {
                                    assert(texts(queue@)[j] == q[j]);
                                }
                            }
                        }
                    }
                    i = i + 1;
                }
                assert(texts(ds@).take(ds.len() as int) =~= texts(ds@));
                proof {
                    let now = texts(out@);
                    assert forall|a: Text, b: Text|
                        (a == start@ || now.contains(a)) && !texts(queue@).contains(a)
                            && #[trigger] depends(units@, e, a, b) implies now.contains(b) by {
                        if a == name@ {
                            let j = choose|j: int|
                                0 <= j < edges(*u, e).len() && edges(*u, e)[j] == b;
                            assert(texts(ds@)[j] == b);
                        } else {
                            if a != start@ {
                                assert(out_was.contains(a));
                            }
                            assert(!queue_was.contains(a));
                            assert(out_was.contains(b));
                        }
                    }
                }
            },
        }
        proof {
            let new = added(units@, e, name@, out_was);
            assert(texts(out@) =~= out_was + new);
            assert(texts(queue@) =~= queue_was.drop_last() + new);
            assert forall|m: nat|
                (#[trigger] walk(units@, e, texts(queue@), texts(out@), m)) is Some implies walk(
                units@,
                e,
                seq![start@],
                seq![],
                m + (steps + 1),
            ) == walk(units@, e, texts(queue@), texts(out@), m) by {
                assert(walk(units@, e, queue_was, out_was, m + 1) == walk(
                    units@,
                    e,
                    texts(queue@),
                    texts(out@),
                    m,
                ));
                assert((m + 1) + steps == m + (steps + 1));
            }
            steps = steps + 1;
            if texts(out@).len() > out_was.len() {
                grown_list_leaves_less(all, out_was, texts(out@));
            } else {
                assert(texts(out@) == out_was);
            }
        }
    }
    proof {
        let r = texts(out@);
        assert(walk(units@, e, texts(queue@), r, 0) == Some(r));
        assert(walk(units@, e, seq![start@], seq![], 0 + steps) == Some(r));
        assert forall|b: Text| #[trigger] r.contains(b) <==> reaches(units@, e, start@, b) by {
            if reaches(units@, e, start@, b) {
                let p = choose|p: Seq<Text>|
                    #[trigger] is_path(units@, e, p) && p[0] == start@ && p.last() == b;
                assert forall|x: Text, y: Text|
                    (x == start@ || r.contains(x)) && #[trigger] depends(
                        units@,
                        e,
                        x,
                        y,
                    ) implies r.contains(y) by {
                    assert(!texts(queue@).contains(x));
                }
                closed_holds_all(units@, e, start@, r, p, p.len() - 1);
            }
        }
    }
    out
}

/// What two lists hold together is what either holds.
proof fn in_either(a: Seq<Text>, b: Seq<Text>, x: Text)
    ensures
        (a + b).contains(x) <==> a.contains(x) || b.contains(x),
{
    if a.contains(x) {
        let j = choose|j: int| 0 <= j < a.len() && a[j] == x;
        assert((a + b)[j] == x);
    }
    if b.contains(x) {
        let j = choose|j: int| 0 <= j < b.len() && b[j] == x;
        assert((a + b)[a.len() + j] == x);
    }
}

/// A list that holds more of a finite set leaves less of it.
proof fn grown_list_leaves_less(all: Set<Text>, a: Seq<Text>, b: Seq<Text>)
    requires
        all.finite(),
        a.len() < b.len(),
        b.no_duplicates(),
        forall|x: Text| a.contains(x) ==> #[trigger] b.contains(x),
        forall|x: Text| #[trigger] b.contains(x) ==> all.contains(x),
    ensures
        all.difference(b.to_set()).len() < all.difference(a.to_set()).len(),
{
    b.unique_seq_to_set();
    vstd::seq_lib::seq_to_set_is_finite(a);
    vstd::seq_lib::seq_to_set_is_finite(b);
    a.lemma_cardinality_of_set();
    let x = all.difference(b.to_set());
    let y = all.difference(a.to_set());
    assert forall|t: Text| x.contains(t) implies y.contains(t) by {
        if a.contains(t) {
            assert(b.contains(t));
        }
    }
    assert(a.to_set().len() < b.to_set().len());
    if x.len() >= y.len() {
        vstd::set_lib::lemma_len_subset(x, y);
        vstd::set_lib::lemma_subset_equality(x, y);
        assert(a.to_set() =~= b.to_set()) by {
            assert forall|t: Text| b.to_set().contains(t) implies a.to_set().contains(t) by {
                assert(b.contains(t));
                assert(!x.contains(t));
                assert(!y.contains(t));
            }
            assert forall|t: Text| a.to_set().contains(t) implies b.to_set().contains(t) by {
                assert(a.contains(t));
                assert(b.contains(t));
            }
        }
    }
}

/// What a unit pulls in: what it needs, what it wants, and what has to be
/// active already.
pub fn start_closure(units: &Table<Unit>, name: &str) -> (r: (Vec<String>, Vec<String>, Vec<String>))
    ensures
        is_closure(units@, Edge::Requires, name@, texts(r.0@)),
        is_closure(units@, Edge::Wants, name@, texts(r.1@)),
        is_closure(units@, Edge::Requisite, name@, texts(r.2@)),
        is_least(|a: Text, b: Text| lists_requires(units@, a, b), name@, texts(r.0@)),
        is_least(|a: Text, b: Text| lists_wants(units@, a, b), name@, texts(r.1@)),
        is_least(|a: Text, b: Text| lists_requisite(units@, a, b), name@, texts(r.2@)),
{
    let needs = closure(units, name, Edge::Requires);
    let weak = closure(units, name, Edge::Wants);
    let reqs = closure(units, name, Edge::Requisite);
    proof {
        required_units_are_pulled_in(units@, name@, texts(needs@));
        wanted_units_are_pulled_in(units@, name@, texts(weak@));
        requisite_units_are_asked_for(units@, name@, texts(reqs@));
    }
    (needs, weak, reqs)
}

/// What a unit conflicts with, directly or through what conflicts with it.
pub fn closure_conflicts(units: &Table<Unit>, name: &str) -> (r: Vec<String>)
    ensures
        is_closure(units@, Edge::Conflicts, name@, texts(r@)),
        is_least(|a: Text, b: Text| lists_conflicts(units@, a, b), name@, texts(r@)),
{
    let v = closure(units, name, Edge::Conflicts);
    proof {
        conflicting_units_are_found(units@, name@, texts(v@));
    }
    v
}

/// Is a unit stopped when another one stops?
pub open spec fn stops_with(units: Map<Text, Unit>, n: Text, name: Text) -> bool {
    units.contains_key(n) && n != name && edges(units[n], Edge::Requires).contains(name)
}

/// The units that are stopped when `name` stops: those that need it.
pub fn stop_propagate(units: &Table<Unit>, name: &str) -> (r: Vec<String>)
    ensures
        texts(r@).no_duplicates(),
        forall|n: Text| #[trigger] texts(r@).contains(n) <==> stops_with(units@, n, name@),
{
    let n = units.len();
    let mut out: Vec<String> = Vec::new();
    let mut i: usize = 0;
    while i < n
        invariant
            i <= n,
            n == units.names().len(),
            units.names().no_duplicates(),
            forall|j: int| 0 <= j < n ==> units@.contains_key(#[trigger] units.names()[j]),
            texts(out@).no_duplicates(),
            forall|x: Text|
                #[trigger] texts(out@).contains(x) <==> (stops_with(units@, x, name@) && exists|j: int|
                    0 <= j < i && units.names()[j] == x),
        decreases n - i,
    {
        let other = units.name_at(i);
        let ghost was = texts(out@);
        assert(units@.contains_key(units.names()[i as int]));
        if !same(other, name) {
            let needs = required(units.value_at(i));
            if listed(&needs, name) {
                out.push(owned(other));
                proof {
                    assert(texts(out@) =~= was.push(other@));
                    assert(texts(out@)[was.len() as int] == other@);
                    assert forall|x: Text| #[trigger] texts(out@).contains(x) == (was.contains(x)
                        || x == other@) by {
                        if was.contains(x) {
                            let j = choose|j: int| 0 <= j < was.len() && was[j] == x;
                            assert(texts(out@)[j] == x);
                        }
                    }
                    if was.contains(other@) {
                        let j = choose|j: int| 0 <= j < i && units.names()[j] == other@;
                        assert(units.names()[j] != units.names()[i as int]);
                    }
                }
            }
        }
        i = i + 1;
        proof {
            assert forall|x: Text| #[trigger] texts(out@).contains(x) <==> (stops_with(
                units@,
                x,
                name@,
            ) && exists|j: int| 0 <= j < i && units.names()[j] == x) by {
                if stops_with(units@, x, name@) && exists|j: int|
                    0 <= j < i && units.names()[j] == x {
                    let j = choose|j: int| 0 <= j < i && units.names()[j] == x;
                    if j < i - 1 {
                        assert(was.contains(x));
                    }
                }
                if was.contains(x) {
                    let j = choose|j: int| 0 <= j < i - 1 && units.names()[j] == x;
                    assert(units.names()[j] == x);
                }
                assert(units.names()[i - 1] == other@);
            }
        }
    }
    proof {
        assert forall|x: Text| #[trigger] texts(out@).contains(x) <==> stops_with(
            units@,
            x,
            name@,
        ) by {
            if stops_with(units@, x, name@) {
                assert(units.names().contains(x));
                let j = choose|j: int| 0 <= j < units.names().len() && units.names()[j] == x;
                assert(units.names()[j] == x);
            }
        }
    }
    out
}

// ---- laws -----------------------------------------------------------------------

proof fn more_steps_find_the_same(
    units: Map<Text, Unit>,
    e: Edge,
    waiting: Seq<Text>,
    found: Seq<Text>,
    m: nat,
    n: nat,
)
    requires
        m <= n,
        walk(units, e, waiting, found, m) is Some,
    ensures
        walk(units, e, waiting, found, n) == walk(units, e, waiting, found, m),
    decreases m,
{
    if waiting.len() > 0 {
        let new = added(units, e, waiting.last(), found);
        more_steps_find_the_same(
            units,
            e,
            waiting.drop_last() + new,
            found + new,
            (m - 1) as nat,
            (n - 1) as nat,
        );
    }
}

/// There is only one list of what is reached from a unit, and one order of it.
pub proof fn closures_are_unique(
    units: Map<Text, Unit>,
    e: Edge,
    start: Text,
    a: Seq<Text>,
    b: Seq<Text>,
)
    requires
        is_closure(units, e, start, a),
        is_closure(units, e, start, b),
    ensures
        a == b,
{
    let m = choose|m: nat| #[trigger] walk(units, e, seq![start], seq![], m) == Some(a);
    let n = choose|n: nat| #[trigger] walk(units, e, seq![start], seq![], n) == Some(b);
    if m <= n {
        more_steps_find_the_same(units, e, seq![start], seq![], m, n);
    } else {
        more_steps_find_the_same(units, e, seq![start], seq![], n, m);
    }
}

/// What a unit depends on directly is reached, and so is all that that reaches.
pub proof fn reaching_is_transitive(units: Map<Text, Unit>, e: Edge, a: Text, b: Text, c: Text)
    requires
        reaches(units, e, a, b),
        reaches(units, e, b, c),
    ensures
        reaches(units, e, a, c),
{
    let p = choose|p: Seq<Text>| #[trigger] is_path(units, e, p) && p[0] == a && p.last() == b;
    let q = choose|q: Seq<Text>| #[trigger] is_path(units, e, q) && q[0] == b && q.last() == c;
    let r = p + q.skip(1);
    assert forall|i: int| 0 <= i < r.len() - 1 implies depends(
        units,
        e,
        #[trigger] r[i],
        r[i + 1],
    ) by {
        if i < p.len() - 1 {
            assert(depends(units, e, p[i], p[i + 1]));
        } else {
            let j = i - (p.len() - 1);
            assert(depends(units, e, q[j], q[j + 1]));
        }
    }
    assert(is_path(units, e, r));
    assert(r.last() == c);
}

/// A unit is stopped with another one just where it needs that one directly.
pub proof fn stopping_follows_needs(units: Map<Text, Unit>, n: Text, name: Text)
    ensures
        stops_with(units, n, name) <==> depends(units, Edge::Requires, n, name),
{
}

// ---- what a unit's settings pull in ---------------------------------------------

/// Does a unit list another one under `Wants=`?
pub open spec fn lists_wants(units: Map<Text, Unit>, a: Text, b: Text) -> bool {
    units.contains_key(a) && units[a].file is Some && texts(
        units[a].file->0.unit.wants@,
    ).contains(b)
}

/// Does a unit list another one under `Requires=` or `BindsTo=`?
pub open spec fn lists_requires(units: Map<Text, Unit>, a: Text, b: Text) -> bool {
    units.contains_key(a) && units[a].file is Some && (texts(
        units[a].file->0.unit.requires@,
    ).contains(b) || texts(units[a].file->0.unit.binds_to@).contains(b))
}

/// Does a unit list another one under `Requisite=`?
pub open spec fn lists_requisite(units: Map<Text, Unit>, a: Text, b: Text) -> bool {
    units.contains_key(a) && units[a].file is Some && texts(
        units[a].file->0.unit.requisite@,
    ).contains(b)
}

/// Does a unit list another one under `Conflicts=`?
pub open spec fn lists_conflicts(units: Map<Text, Unit>, a: Text, b: Text) -> bool {
    units.contains_key(a) && units[a].file is Some && texts(
        units[a].file->0.unit.conflicts@,
    ).contains(b)
}

/// Are these names the least ones that hold, with every name that they hold, and
/// with `start`, all others that it lists? Each stands there once.
pub open spec fn is_least(
    lists: spec_fn(Text, Text) -> bool,
    start: Text,
    r: Seq<Text>,
) -> bool {
    &&& r.no_duplicates()
    &&& forall|a: Text, b: Text|
        (a == start || r.contains(a)) && a != b && #[trigger] lists(a, b) ==> r.contains(b)
    &&& forall|s: Set<Text>, b: Text|
        #![trigger s.contains(b), r.contains(b)]
        (forall|x: Text, y: Text|
            (x == start || s.contains(x)) && x != y && #[trigger] lists(x, y) ==> s.contains(y))
            && r.contains(b) ==> s.contains(b)
}

/// What is reached lies in every set that is closed under a step.
proof fn reached_is_in_closed_set(
    units: Map<Text, Unit>,
    e: Edge,
    lists: spec_fn(Text, Text) -> bool,
    start: Text,
    s: Set<Text>,
    p: Seq<Text>,
    k: int,
)
    requires
        forall|a: Text, b: Text| #[trigger] depends(units, e, a, b) ==> a != b && lists(a, b),
        forall|x: Text, y: Text|
            (x == start || s.contains(x)) && x != y && #[trigger] lists(x, y) ==> s.contains(y),
        is_path(units, e, p),
        p[0] == start,
        1 <= k < p.len(),
    ensures
        s.contains(p[k]),
    decreases k,
{
    if k > 1 {
        reached_is_in_closed_set(units, e, lists, start, s, p, k - 1);
    }
    assert(depends(units, e, p[k - 1], p[k - 1 + 1]));
}

proof fn closure_is_least(
    units: Map<Text, Unit>,
    e: Edge,
    lists: spec_fn(Text, Text) -> bool,
    start: Text,
    r: Seq<Text>,
)
    requires
        is_closure(units, e, start, r),
        forall|a: Text, b: Text|
            #![trigger depends(units, e, a, b)]
            #![trigger lists(a, b)]
            depends(units, e, a, b) <==> a != b && lists(a, b),
    ensures
        is_least(lists, start, r),
{
    assert forall|a: Text, b: Text|
        (a == start || r.contains(a)) && a != b && #[trigger] lists(a, b) implies r.contains(b) by {
        assert(depends(units, e, a, b));
        reach_step(units, e, start, a, b);
    }
    assert forall|s: Set<Text>, b: Text|
        #![trigger s.contains(b), r.contains(b)]
        (forall|x: Text, y: Text|
            (x == start || s.contains(x)) && x != y && #[trigger] lists(x, y) ==> s.contains(y))
            && r.contains(b) implies s.contains(b) by {
        let p = choose|p: Seq<Text>|
            #[trigger] is_path(units, e, p) && p[0] == start && p.last() == b;
        reached_is_in_closed_set(units, e, lists, start, s, p, p.len() - 1);
    }
}

/// What starting a unit pulls in is what its `Wants=` lists, what the `Wants=`
/// of these list, and so on, and nothing else.
pub proof fn wanted_units_are_pulled_in(units: Map<Text, Unit>, start: Text, weak: Seq<Text>)
    requires
        is_closure(units, Edge::Wants, start, weak),
    ensures
        is_least(|a: Text, b: Text| lists_wants(units, a, b), start, weak),
        forall|b: Text| start != b && #[trigger] lists_wants(units, start, b) ==> weak.contains(b),
        (forall|a: Text, b: Text| !#[trigger] lists_wants(units, a, b)) ==> weak.len() == 0,
{
    let lists = |a: Text, b: Text| lists_wants(units, a, b);
    closure_is_least(units, Edge::Wants, lists, start, weak);
    assert forall|b: Text| start != b && #[trigger] lists_wants(units, start, b) implies weak.contains(
        b,
    ) by {
        assert(lists(start, b));
    }
    if forall|a: Text, b: Text| !#[trigger] lists_wants(units, a, b) {
        if weak.len() > 0 {
            assert(weak.contains(weak[0]));
            assert(Set::<Text>::empty().contains(weak[0]));
        }
    }
}

/// What a unit needs is what its `Requires=` and `BindsTo=` list, what those of
/// these list, and so on, and nothing else.
pub proof fn required_units_are_pulled_in(units: Map<Text, Unit>, start: Text, needs: Seq<Text>)
    requires
        is_closure(units, Edge::Requires, start, needs),
    ensures
        is_least(|a: Text, b: Text| lists_requires(units, a, b), start, needs),
        forall|b: Text|
            start != b && #[trigger] lists_requires(units, start, b) ==> needs.contains(b),
{
    let lists = |a: Text, b: Text| lists_requires(units, a, b);
    assert forall|a: Text, b: Text|
        #![trigger depends(units, Edge::Requires, a, b)]
        #![trigger lists(a, b)]
        depends(units, Edge::Requires, a, b) <==> a != b && lists(a, b) by {
        if units.contains_key(a) && units[a].file is Some {
            in_either(
                texts(units[a].file->0.unit.requires@),
                texts(units[a].file->0.unit.binds_to@),
                b,
            );
        }
    }
    closure_is_least(units, Edge::Requires, lists, start, needs);
    assert forall|b: Text| start != b && #[trigger] lists_requires(units, start, b) implies needs.contains(
        b,
    ) by {
        assert(lists(start, b));
    }
}

/// What has to be active already is what `Requisite=` lists, step by step.
pub proof fn requisite_units_are_asked_for(units: Map<Text, Unit>, start: Text, reqs: Seq<Text>)
    requires
        is_closure(units, Edge::Requisite, start, reqs),
    ensures
        is_least(|a: Text, b: Text| lists_requisite(units, a, b), start, reqs),
        forall|b: Text|
            start != b && #[trigger] lists_requisite(units, start, b) ==> reqs.contains(b),
{
    let lists = |a: Text, b: Text| lists_requisite(units, a, b);
    closure_is_least(units, Edge::Requisite, lists, start, reqs);
    assert forall|b: Text| start != b && #[trigger] lists_requisite(units, start, b) implies reqs.contains(
        b,
    ) by {
        assert(lists(start, b));
    }
}

/// What is stopped first is what `Conflicts=` lists, step by step.
pub proof fn conflicting_units_are_found(units: Map<Text, Unit>, start: Text, v: Seq<Text>)
    requires
        is_closure(units, Edge::Conflicts, start, v),
    ensures
        is_least(|a: Text, b: Text| lists_conflicts(units, a, b), start, v),
        forall|b: Text| start != b && #[trigger] lists_conflicts(units, start, b) ==> v.contains(b),
{
    let lists = |a: Text, b: Text| lists_conflicts(units, a, b);
    closure_is_least(units, Edge::Conflicts, lists, start, v);
    assert forall|b: Text| start != b && #[trigger] lists_conflicts(units, start, b) implies v.contains(
        b,
    ) by {
        assert(lists(start, b));
    }
}

/// A unit is stopped with another one just where its `Requires=` or `BindsTo=`
/// lists that one.
pub proof fn units_stop_with_what_they_require(units: Map<Text, Unit>, n: Text, name: Text)
    ensures
        stops_with(units, n, name) <==> n != name && lists_requires(units, n, name),
{
    if units.contains_key(n) && units[n].file is Some {
        in_either(
            texts(units[n].file->0.unit.requires@),
            texts(units[n].file->0.unit.binds_to@),
            name,
        );
    }
}

/// A unit requires another one just where its `Requires=` or `BindsTo=` lists it.
pub proof fn requiring_is_listing(units: Map<Text, Unit>, a: Text, b: Text)
    ensures
        depends(units, Edge::Requires, a, b) <==> a != b && lists_requires(units, a, b),
{
    if units.contains_key(a) && units[a].file is Some {
        in_either(
            texts(units[a].file->0.unit.requires@),
            texts(units[a].file->0.unit.binds_to@),
            b,
        );
    }
}

} // verus!
